//! The beneficiary's face: proofs, challenges and claims.

use crate::bytes::copy_bytes;
use crate::curve::{is_point, point_key, product_key, Point};
use crate::persistent_store::challenge::{Challenge, ChallengeView};
use crate::persistent_store::rows::{counter_of, read_counter, write_counter, COUNTER_WIDTH};
use crate::persistent_store::{PersistentStore, SetChallengeError, StoreState};
use crate::proto::beneficiary;
use crate::proto::beneficiary::{
    carries, GetChallengeRequest, ObtainServerSecretShareRequest,
    ObtainServerSecretShareResponse, VerifyServerShareRequest, VerifyServerShareResponse,
};
use crate::scalar::Scalar;
use crate::sealed::{first_failure, OpenError, Sealed};
use crate::status::{refuse, Code, Refusal, Status};
use vstd::prelude::*;

verus! {

/// The beneficiary's face of the service: proofs, challenges and claims.
///
/// `vdf_setup` holds the public parameters of the delay function. The
/// engine keeps them for whoever mints challenges and checks solutions; it
/// never looks inside.
pub struct BeneficiaryServer<S, V> {
    pub vdf_setup: V,
    pub store: S,
}

impl<S, V> BeneficiaryServer<S, V> {
    /// The beneficiary's face over a store, with the parameters of the
    /// delay function.
    pub fn new(vdf_setup: V, persistent_store: S) -> (server: Self)
        ensures
            server.vdf_setup == vdf_setup,
            server.store == persistent_store,
    {
        BeneficiaryServer { vdf_setup, store: persistent_store }
    }
}

/// What the delay function made of a claim: of the instance in the solved
/// challenge and of the solution that came with it.
#[derive(Debug, Clone, Copy, PartialEq, Eq)]
pub enum Verdict {
    /// The instance could not be read.
    MalformedChallenge,
    /// The instance could be read, the solution could not.
    MalformedSolution,
    /// Both could be read, and the solution does not solve the instance.
    Rejected,
    /// The solution solves the instance.
    Accepted,
}

/// The sentence with which a request for proof is turned away for its
/// arguments, if it is.
pub open spec fn proof_request_flaw(request: VerifyServerShareRequest) -> Option<Seq<char>> {
    if !is_point(request.public_key@) {
        Some("invalid joint public key"@)
    } else if !is_point(request.client_public_share@) {
        Some("invalid client public share"@)
    } else {
        None
    }
}

/// What a request for proof comes to on a steady store that stands at
/// `state`: the joint public key, where the client's public share times the
/// share on file gives it, or the refusal.
pub open spec fn proof_outcome(state: StoreState, request: VerifyServerShareRequest) -> Result<
    Seq<u8>,
    Refusal,
> {
    let key = point_key(request.public_key@);
    match proof_request_flaw(request) {
        Some(sentence) => Err(Refusal { code: Code::InvalidArgument, sentence }),
        None => if state.shares.contains_key(key) && product_key(
            request.client_public_share@,
            state.shares[key],
        ) == key {
            Ok(key)
        } else {
            Err(refuse(Code::NotFound, "not found"))
        },
    }
}

/// The challenge that a request for the challenge is answered with on a
/// steady store that stands at `state`: the one on file, or `fresh` as the
/// challenge of the current epoch.
pub open spec fn challenge_outcome(state: StoreState, fresh: Seq<u8>) -> ChallengeView {
    match state.challenge {
        Some(current) => current,
        None => ChallengeView { id: state.counter, challenge: fresh },
    }
}

/// Reads the arguments of a request for proof: the joint public key and
/// the client's public share.
pub fn decode_proof_request(request: &VerifyServerShareRequest) -> (decoded: Result<
    (Point, Point),
    Status,
>)
    ensures
        match decoded {
            Ok((public_key, client_public_share)) => {
                &&& proof_request_flaw(*request) is None
                &&& public_key@ == point_key(request.public_key@)
                &&& client_public_share.source() == request.client_public_share@
            },
            Err(status) => {
                &&& proof_request_flaw(*request) matches Some(sentence)
                &&& status.code == Code::InvalidArgument
                &&& status.message@ == sentence
            },
        },
{
    let public_key = match Point::from_bytes(request.public_key.as_slice()) {
        Some(point) => point,
        None => {
            return Err(Status::invalid_argument("invalid joint public key"));
        },
    };
    let client_public_share = match Point::from_bytes(request.client_public_share.as_slice()) {
        Some(point) => point,
        None => {
            return Err(Status::invalid_argument("invalid client public share"));
        },
    };
    Ok((public_key, client_public_share))
}

/// What the beneficiary hears of a request for proof, from what the store
/// found. A missing share and a share that does not match the client's are
/// answered alike.
pub fn proof_reply<E>(found: Result<Option<Sealed>, E>, client_public_share: Point) -> (reply:
    Result<VerifyServerShareResponse, Status>)
    ensures
        match found {
            Ok(Some(sealed)) => if sealed.fits(&client_public_share) {
                reply matches Ok(response) && response.server_public_share@
                    == sealed@.public_key
            } else {
                reply matches Err(status) && status.says(Code::NotFound, "not found")
            },
            Ok(None) => reply matches Err(status) && status.says(Code::NotFound, "not found"),
            Err(_) => reply matches Err(status) && status.says(
                Code::Internal,
                "getting server share from persistent store resulted in error",
            ),
        },
{
    match found {
        Ok(Some(sealed)) => match sealed.verify(client_public_share) {
            Some(product) => Ok(VerifyServerShareResponse { server_public_share: product }),
            None => Err(Status::not_found("not found")),
        },
        Ok(None) => Err(Status::not_found("not found")),
        Err(_) => Err(
            Status::internal("getting server share from persistent store resulted in error"),
        ),
    }
}

/// A challenge as it travels.
pub fn challenge_message(challenge: &Challenge) -> (message: beneficiary::Challenge)
    ensures
        carries(message, challenge@),
{
    beneficiary::Challenge {
        id: write_counter(challenge.id),
        challenge: copy_bytes(challenge.challenge.as_slice()),
    }
}

/// What the beneficiary hears after the engine tried to set the challenge
/// that it minted. Where another request set one first, that one is the
/// answer. Where a ping came in between, the testator is live.
pub fn challenge_reply<E>(set: Result<(), SetChallengeError<E>>, minted: Challenge) -> (reply:
    Result<beneficiary::Challenge, Status>)
    ensures
        match set {
            Ok(_) => reply matches Ok(message) && carries(message, minted@),
            Err(SetChallengeError::AlreadySet(existing)) => reply matches Ok(message) && carries(
                message,
                existing@,
            ),
            Err(SetChallengeError::Outdated) => reply matches Err(status) && status.says(
                Code::FailedPrecondition,
                "testator is live",
            ),
            Err(SetChallengeError::MismatchedId) => reply matches Err(status) && status.says(
                Code::Internal,
                "challenge.id > ping_counter",
            ),
            Err(SetChallengeError::Store(_)) => reply matches Err(status) && status.says(
                Code::Internal,
                "setting challenge resulted in error",
            ),
        },
{
    match set {
        Ok(_) => Ok(challenge_message(&minted)),
        Err(SetChallengeError::AlreadySet(existing)) => Ok(challenge_message(&existing)),
        Err(SetChallengeError::Outdated) => Err(Status::failed_precondition("testator is live")),
        Err(SetChallengeError::MismatchedId) => Err(
            Status::internal("challenge.id > ping_counter"),
        ),
        Err(SetChallengeError::Store(_)) => Err(
            Status::internal("setting challenge resulted in error"),
        ),
    }
}

/// The arguments of a claim, read.
pub struct Claim {
    pub public_key: Point,
    pub client_public_share: Point,
    pub solved_challenge: Challenge,
}

/// The challenge that a claim says it solved.
pub open spec fn solved_challenge(request: ObtainServerSecretShareRequest) -> ChallengeView
    recommends
        request.solved_challenge is Some,
{
    ChallengeView {
        id: counter_of(request.solved_challenge->0.id@)->0,
        challenge: request.solved_challenge->0.challenge@,
    }
}

/// The sentence with which a claim is turned away for its arguments, if it
/// is. The two points come first, then the solved challenge and its id,
/// then what the delay function could not read.
pub open spec fn claim_flaw(request: ObtainServerSecretShareRequest, verdict: Verdict) -> Option<
    Seq<char>,
> {
    if !is_point(request.public_key@) {
        Some("invalid public key"@)
    } else if !is_point(request.client_public_share@) {
        Some("invalid public key"@)
    } else if request.solved_challenge is None {
        Some("solved challenge is not provided"@)
    } else if request.solved_challenge->0.id@.len() != COUNTER_WIDTH {
        Some("invalid solved challenge id"@)
    } else if verdict == Verdict::MalformedChallenge {
        Some("invalid solved challenge"@)
    } else if verdict == Verdict::MalformedSolution {
        Some("invalid solution"@)
    } else {
        None
    }
}

/// What the beneficiary hears where a seal stays closed, as a refusal.
pub open spec fn open_refusal(error: OpenError) -> Refusal {
    match error {
        OpenError::ClientShareDoesntMatchServerShare => refuse(Code::NotFound, "not found"),
        OpenError::OldChallenge => refuse(Code::FailedPrecondition, "testator is live"),
        OpenError::InvalidChallenge => refuse(
            Code::InvalidArgument,
            "solved challenge is different from what was required to solve",
        ),
        OpenError::IncorrectSolution => refuse(Code::InvalidArgument, "incorrect solution"),
    }
}

/// What a claim comes to on a steady store that stands at `state`: the
/// digits of the released share, or the refusal.
///
/// Arguments that cannot be read come first. Then the testator is live
/// where no challenge is on file; then the share must be on file; then the
/// seal makes its checks in their order.
pub open spec fn claim_outcome(
    state: StoreState,
    request: ObtainServerSecretShareRequest,
    verdict: Verdict,
) -> Result<Seq<u8>, Refusal> {
    let key = point_key(request.public_key@);
    match claim_flaw(request, verdict) {
        Some(sentence) => Err(Refusal { code: Code::InvalidArgument, sentence }),
        None => match state.challenge {
            None => Err(refuse(Code::FailedPrecondition, "testator is live")),
            Some(current) => if !state.shares.contains_key(key) {
                Err(refuse(Code::NotFound, "not found"))
            } else {
                match first_failure(
                    current,
                    solved_challenge(request),
                    verdict == Verdict::Accepted,
                    product_key(request.client_public_share@, state.shares[key]) == key,
                ) {
                    Some(error) => Err(open_refusal(error)),
                    None => Ok(state.shares[key]),
                }
            },
        },
    }
}

/// What the screening of a claim comes to on a steady store that stands at
/// `state`: everything that [`claim_outcome`] looks at before the solution.
pub open spec fn screening_outcome(
    state: StoreState,
    request: ObtainServerSecretShareRequest,
    verdict: Verdict,
) -> Result<(), Refusal> {
    let key = point_key(request.public_key@);
    match claim_flaw(request, verdict) {
        Some(sentence) => Err(Refusal { code: Code::InvalidArgument, sentence }),
        None => match state.challenge {
            None => Err(refuse(Code::FailedPrecondition, "testator is live")),
            Some(current) => if !state.shares.contains_key(key) {
                Err(refuse(Code::NotFound, "not found"))
            } else {
                match first_failure(current, solved_challenge(request), true, true) {
                    Some(error) => Err(open_refusal(error)),
                    None => Ok(()),
                }
            },
        },
    }
}

/// Reads the arguments of a claim.
pub fn decode_claim(request: &ObtainServerSecretShareRequest, verdict: Verdict) -> (decoded:
    Result<Claim, Status>)
    ensures
        match decoded {
            Ok(claim) => {
                &&& claim_flaw(*request, verdict) is None
                &&& claim.public_key@ == point_key(request.public_key@)
                &&& claim.client_public_share.source() == request.client_public_share@
                &&& claim.solved_challenge@ == solved_challenge(*request)
            },
            Err(status) => {
                &&& claim_flaw(*request, verdict) matches Some(sentence)
                &&& status.code == Code::InvalidArgument
                &&& status.message@ == sentence
            },
        },
{
    let public_key = match Point::from_bytes(request.public_key.as_slice()) {
        Some(point) => point,
        None => {
            return Err(Status::invalid_argument("invalid public key"));
        },
    };
    let client_public_share = match Point::from_bytes(request.client_public_share.as_slice()) {
        Some(point) => point,
        None => {
            return Err(Status::invalid_argument("invalid public key"));
        },
    };
    let solved = match &request.solved_challenge {
        Some(message) => message,
        None => {
            return Err(Status::invalid_argument("solved challenge is not provided"));
        },
    };
    let id = match read_counter(solved.id.as_slice()) {
        Some(id) => id,
        None => {
            return Err(Status::invalid_argument("invalid solved challenge id"));
        },
    };
    match verdict {
        Verdict::MalformedChallenge => {
            return Err(Status::invalid_argument("invalid solved challenge"));
        },
        Verdict::MalformedSolution => {
            return Err(Status::invalid_argument("invalid solution"));
        },
        _ => {},
    }
    Ok(
        Claim {
            public_key,
            client_public_share,
            solved_challenge: Challenge { id, challenge: copy_bytes(solved.challenge.as_slice()) },
        },
    )
}

/// What the beneficiary hears where a seal stays closed. A share that does
/// not match the client's is answered like a missing one.
pub fn open_status(error: OpenError) -> (status: Status)
    ensures
        status@ == open_refusal(error),
{
    match error {
        OpenError::ClientShareDoesntMatchServerShare => Status::not_found("not found"),
        OpenError::OldChallenge => Status::failed_precondition("testator is live"),
        OpenError::InvalidChallenge => Status::invalid_argument(
            "solved challenge is different from what was required to solve",
        ),
        OpenError::IncorrectSolution => Status::invalid_argument("incorrect solution"),
    }
}

/// What the beneficiary hears of a claim, from what the seal said.
pub fn release_reply(opened: Result<Scalar, OpenError>) -> (reply: Result<
    ObtainServerSecretShareResponse,
    Status,
>)
    ensures
        match opened {
            Ok(share) => reply matches Ok(response) && response.server_secret_share@ == share@,
            Err(error) => reply matches Err(status) && status@ == open_refusal(error),
        },
{
    match opened {
        Ok(share) => Ok(ObtainServerSecretShareResponse { server_secret_share: share.to_bytes() }),
        Err(error) => Err(open_status(error)),
    }
}

impl<S: PersistentStore, V> BeneficiaryServer<S, V> {
    /// Shows that the server holds the share that matches the client's.
    ///
    /// The proof is the client's public share multiplied by the server's
    /// share, and is given only where that product is the joint public key.
    pub fn verify_server_share(&mut self, request: VerifyServerShareRequest) -> (reply: Result<
        VerifyServerShareResponse,
        Status,
    >)
        ensures
            final(self).vdf_setup == old(self).vdf_setup,
            old(self).store.state().evolves_to(final(self).store.state()),
            match proof_request_flaw(request) {
                Some(sentence) => {
                    &&& reply matches Err(status) && status.code == Code::InvalidArgument
                        && status.message@ == sentence
                    &&& final(self).store == old(self).store
                },
                None => {
                    let key = point_key(request.public_key@);
                    let shares = final(self).store.state().shares;
                    match reply {
                        Ok(response) => {
                            &&& shares.contains_key(key)
                            &&& product_key(request.client_public_share@, shares[key]) == key
                            &&& response.server_public_share@ == key
                        },
                        Err(status) => {
                            ||| {
                                &&& status.says(Code::NotFound, "not found")
                                &&& shares.contains_key(key) ==> product_key(
                                    request.client_public_share@,
                                    shares[key],
                                ) != key
                            }
                            ||| status.says(
                                Code::Internal,
                                "getting server share from persistent store resulted in error",
                            )
                        },
                    }
                },
            },
            old(self).store.steady() ==> {
                &&& final(self).store.steady()
                &&& final(self).store.state() == old(self).store.state()
                &&& match proof_outcome(old(self).store.state(), request) {
                    Ok(key) => reply matches Ok(response) && response.server_public_share@ == key,
                    Err(refusal) => reply matches Err(status) && status@ == refusal,
                }
            },
    {
        let (public_key, client_public_share) = match decode_proof_request(&request) {
            Ok(decoded) => decoded,
            Err(status) => {
                return Err(status);
            },
        };
        let found = self.store.get_server_secret_share(public_key);
        proof_reply(found, client_public_share)
    }

    /// The challenge of the current epoch: the one on file, or `fresh` set
    /// as the challenge of the epoch where there was none.
    ///
    /// `fresh` is a newly picked instance of the delay function. It is
    /// dropped where the epoch has its challenge already.
    pub fn get_challenge(&mut self, _request: GetChallengeRequest, fresh: Vec<u8>) -> (reply:
        Result<beneficiary::Challenge, Status>)
        ensures
            final(self).vdf_setup == old(self).vdf_setup,
            final(self).store.state().wf(),
            old(self).store.state().evolves_to(final(self).store.state()),
            match reply {
                Ok(message) => {
                    &&& final(self).store.state().challenge matches Some(current)
                    &&& carries(message, current)
                },
                Err(status) => {
                    ||| {
                        &&& status.says(Code::FailedPrecondition, "testator is live")
                        &&& old(self).store.state().counter < final(self).store.state().counter
                    }
                    ||| status.says(Code::Internal, "retrieving challenge resulted in error")
                    ||| status.says(Code::Internal, "retrieving ping counter resulted in error")
                    ||| status.says(Code::Internal, "setting challenge resulted in error")
                },
            },
            old(self).store.steady() ==> {
                let answer = challenge_outcome(old(self).store.state(), fresh@);
                &&& final(self).store.steady()
                &&& final(self).store.state() == old(self).store.state().with_challenge(answer)
                &&& reply matches Ok(message) && carries(message, answer)
            },
    {
        match self.store.get_challenge() {
            Ok(Some(challenge)) => {
                return Ok(challenge_message(&challenge));
            },
            Ok(None) => {},
            Err(_) => {
                return Err(Status::internal("retrieving challenge resulted in error"));
            },
        }
        let id = match self.store.get_ping_counter() {
            Ok(counter) => counter,
            Err(_) => {
                return Err(Status::internal("retrieving ping counter resulted in error"));
            },
        };
        let minted = Challenge { id, challenge: fresh };
        let set = self.store.set_challenge(minted.clone());
        challenge_reply(set, minted)
    }

    /// Looks at a claim as far as that can be done without its solution
    /// being verified: whether its arguments can be read, a challenge and the
    /// share are on file, and the solved challenge is the current one.
    ///
    /// Of `verdict` only what could not be read counts. A claim that passes
    /// is worth the delay function's time; one that does not is refused by
    /// [`BeneficiaryServer::obtain_server_secret_share`] with the same
    /// words.
    pub fn screen_claim(&mut self, request: &ObtainServerSecretShareRequest, verdict: Verdict) -> (
    screened: Result<(), Status>)
        ensures
            final(self).vdf_setup == old(self).vdf_setup,
            old(self).store.state().evolves_to(final(self).store.state()),
            match claim_flaw(*request, verdict) {
                Some(sentence) => {
                    &&& screened matches Err(status) && status.code == Code::InvalidArgument
                        && status.message@ == sentence
                    &&& final(self).store == old(self).store
                },
                None => match screened {
                    Ok(_) => {
                        &&& exists|between: StoreState|
                            {
                                &&& #[trigger] old(self).store.state().passes_through(
                                    between,
                                    final(self).store.state(),
                                )
                                &&& between.challenge == Some(solved_challenge(*request))
                            }
                        &&& final(self).store.state().shares.contains_key(
                            point_key(request.public_key@),
                        )
                    },
                    Err(status) => {
                        ||| status.says(Code::FailedPrecondition, "testator is live")
                        ||| status.says(
                            Code::InvalidArgument,
                            "solved challenge is different from what was required to solve",
                        )
                        ||| {
                            &&& status.says(Code::NotFound, "not found")
                            &&& !final(self).store.state().shares.contains_key(
                                point_key(request.public_key@),
                            )
                        }
                        ||| status.says(
                            Code::Internal,
                            "retrieving current challenge resulted in error",
                        )
                        ||| status.says(
                            Code::Internal,
                            "retrieving server secret share resulted in error",
                        )
                    },
                },
            },
            old(self).store.steady() ==> {
                &&& final(self).store.steady()
                &&& final(self).store.state() == old(self).store.state()
                &&& match screening_outcome(old(self).store.state(), *request, verdict) {
                    Ok(_) => screened is Ok,
                    Err(refusal) => screened matches Err(status) && status@ == refusal,
                }
            },
    {
        let ghost before = self.store.state();
        let claim = match decode_claim(request, verdict) {
            Ok(claim) => claim,
            Err(status) => {
                return Err(status);
            },
        };
        let current = match self.store.get_challenge() {
            Ok(Some(challenge)) => challenge,
            Ok(None) => {
                return Err(Status::failed_precondition("testator is live"));
            },
            Err(_) => {
                return Err(Status::internal("retrieving current challenge resulted in error"));
            },
        };
        let ghost observed = self.store.state();
        match self.store.get_server_secret_share(claim.public_key) {
            Ok(Some(_)) => {},
            Ok(None) => {
                return Err(Status::not_found("not found"));
            },
            Err(_) => {
                return Err(Status::internal("retrieving server secret share resulted in error"));
            },
        }
        match Sealed::screen(&current, &claim.solved_challenge) {
            Ok(_) => {
                proof {
                    assert(before.passes_through(observed, self.store.state()));
                }
                Ok(())
            },
            Err(error) => Err(open_status(error)),
        }
    }

    /// Releases the server's share to a beneficiary who solved the current
    /// challenge and holds the matching share.
    ///
    /// `verdict` is what the delay function made of the solved challenge
    /// and the solution in `request`.
    pub fn obtain_server_secret_share(
        &mut self,
        request: ObtainServerSecretShareRequest,
        verdict: Verdict,
    ) -> (reply: Result<ObtainServerSecretShareResponse, Status>)
        ensures
            final(self).vdf_setup == old(self).vdf_setup,
            old(self).store.state().evolves_to(final(self).store.state()),
            match claim_flaw(request, verdict) {
                Some(sentence) => {
                    &&& reply matches Err(status) && status.code == Code::InvalidArgument
                        && status.message@ == sentence
                    &&& final(self).store == old(self).store
                },
                None => {
                    let key = point_key(request.public_key@);
                    let shares = final(self).store.state().shares;
                    match reply {
                        Ok(response) => {
                            &&& verdict == Verdict::Accepted
                            &&& exists|between: StoreState|
                                {
                                    &&& #[trigger] old(self).store.state().passes_through(
                                        between,
                                        final(self).store.state(),
                                    )
                                    &&& between.challenge == Some(solved_challenge(request))
                                }
                            &&& shares.contains_key(key)
                            &&& product_key(request.client_public_share@, shares[key]) == key
                            &&& response.server_secret_share@ == shares[key]
                        },
                        Err(status) => {
                            ||| status.says(Code::FailedPrecondition, "testator is live")
                            ||| status.says(
                                Code::InvalidArgument,
                                "solved challenge is different from what was required to solve",
                            )
                            ||| {
                                &&& status.says(Code::InvalidArgument, "incorrect solution")
                                &&& verdict == Verdict::Rejected
                            }
                            ||| {
                                &&& status.says(Code::NotFound, "not found")
                                &&& shares.contains_key(key) ==> product_key(
                                    request.client_public_share@,
                                    shares[key],
                                ) != key
                            }
                            ||| status.says(
                                Code::Internal,
                                "retrieving current challenge resulted in error",
                            )
                            ||| status.says(
                                Code::Internal,
                                "retrieving server secret share resulted in error",
                            )
                        },
                    }
                },
            },
            old(self).store.steady() ==> {
                &&& final(self).store.steady()
                &&& final(self).store.state() == old(self).store.state()
                &&& match claim_outcome(old(self).store.state(), request, verdict) {
                    Ok(share) => reply matches Ok(response) && response.server_secret_share@
                        == share,
                    Err(refusal) => reply matches Err(status) && status@ == refusal,
                }
            },
    {
        let ghost before = self.store.state();
        let claim = match decode_claim(&request, verdict) {
            Ok(claim) => claim,
            Err(status) => {
                return Err(status);
            },
        };
        let current = match self.store.get_challenge() {
            Ok(Some(challenge)) => challenge,
            Ok(None) => {
                return Err(Status::failed_precondition("testator is live"));
            },
            Err(_) => {
                return Err(Status::internal("retrieving current challenge resulted in error"));
            },
        };
        let ghost observed = self.store.state();
        let found = self.store.get_server_secret_share(claim.public_key);
        let sealed = match found {
            Ok(Some(sealed)) => sealed,
            Ok(None) => {
                return Err(Status::not_found("not found"));
            },
            Err(_) => {
                return Err(Status::internal("retrieving server secret share resulted in error"));
            },
        };
        let accepted = match verdict {
            Verdict::Accepted => true,
            _ => false,
        };
        let opened = sealed.open(
            &current,
            &claim.solved_challenge,
            accepted,
            claim.client_public_share,
        );
        proof {
            if opened is Ok {
                assert(before.passes_through(observed, self.store.state()));
            }
        }
        release_reply(opened)
    }
}

/// The proof that a request for proof is answered with is the joint public
/// key, and it is given exactly where a share is on file under that key and
/// the client's public share times that share is the key.
pub proof fn lemma_proof_is_the_joint_key(state: StoreState, request: VerifyServerShareRequest)
    requires
        proof_request_flaw(request) is None,
    ensures
        ({
            let key = point_key(request.public_key@);
            let matching = state.shares.contains_key(key) && product_key(
                request.client_public_share@,
                state.shares[key],
            ) == key;
            &&& matching ==> proof_outcome(state, request) == Ok::<Seq<u8>, Refusal>(key)
            &&& !matching ==> proof_outcome(state, request) == Err::<Seq<u8>, Refusal>(
                refuse(Code::NotFound, "not found"),
            )
        }),
{
}

/// A request for the challenge leaves the challenge of the epoch on file,
/// and a second request in the same epoch is answered with the same
/// challenge, whatever fresh instance it brings.
pub proof fn lemma_challenge_is_issued_once(state: StoreState, first: Seq<u8>, second: Seq<u8>)
    requires
        state.wf(),
    ensures
        ({
            let answer = challenge_outcome(state, first);
            let after = state.with_challenge(answer);
            &&& after.wf()
            &&& answer.id == state.counter
            &&& challenge_outcome(after, second) == answer
        }),
{
}

/// After a ping no claim is honoured until a new challenge was issued:
/// a claim that can be read is answered with "testator is live".
pub proof fn lemma_ping_stops_claims(
    state: StoreState,
    request: ObtainServerSecretShareRequest,
    verdict: Verdict,
)
    requires
        state.counter < u128::MAX,
        claim_flaw(request, verdict) is None,
    ensures
        claim_outcome(state.after_ping(), request, verdict) == Err::<Seq<u8>, Refusal>(
            refuse(Code::FailedPrecondition, "testator is live"),
        ),
{
}

/// A challenge of an earlier epoch is never honoured: where the solved
/// challenge has a smaller id than the one on file, the claim is answered
/// with "testator is live", whatever else it holds.
pub proof fn lemma_old_challenge_is_refused(
    state: StoreState,
    request: ObtainServerSecretShareRequest,
    verdict: Verdict,
)
    requires
        claim_flaw(request, verdict) is None,
        state.challenge is Some,
        solved_challenge(request).id < state.challenge->0.id,
        state.shares.contains_key(point_key(request.public_key@)),
    ensures
        claim_outcome(state, request, verdict) == Err::<Seq<u8>, Refusal>(
            refuse(Code::FailedPrecondition, "testator is live"),
        ),
{
}

/// A share is released exactly to a claim that can be read, solves the
/// challenge on file, comes with an accepted solution, and holds the client
/// share that matches the share on file; what is released is that share.
pub proof fn lemma_release_needs_every_check(
    state: StoreState,
    request: ObtainServerSecretShareRequest,
    verdict: Verdict,
)
    ensures
        ({
            let key = point_key(request.public_key@);
            claim_outcome(state, request, verdict) is Ok <==> {
                &&& claim_flaw(request, verdict) is None
                &&& state.challenge == Some(solved_challenge(request))
                &&& verdict == Verdict::Accepted
                &&& state.shares.contains_key(key)
                &&& product_key(request.client_public_share@, state.shares[key]) == key
            }
        }),
        claim_outcome(state, request, verdict) is Ok ==> claim_outcome(
            state,
            request,
            verdict,
        )->Ok_0 == state.shares[point_key(request.public_key@)],
{
}

/// What screening refuses a claim for, the claim is refused for, in the same
/// words; a claim that passes screening is honoured or fails on its
/// solution or on the client's share, in that order.
pub proof fn lemma_screening_agrees(
    state: StoreState,
    request: ObtainServerSecretShareRequest,
    verdict: Verdict,
)
    ensures
        match screening_outcome(state, request, verdict) {
            Err(refusal) => claim_outcome(state, request, verdict) == Err::<Seq<u8>, Refusal>(
                refusal,
            ),
            Ok(_) => {
                let key = point_key(request.public_key@);
                claim_outcome(state, request, verdict) == if verdict != Verdict::Accepted {
                    Err::<Seq<u8>, Refusal>(open_refusal(OpenError::IncorrectSolution))
                } else if product_key(request.client_public_share@, state.shares[key]) != key {
                    Err(open_refusal(OpenError::ClientShareDoesntMatchServerShare))
                } else {
                    Ok(state.shares[key])
                }
            },
        },
{
}

} // verus!
