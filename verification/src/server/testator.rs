//! The testator's face: deposits and keepalives.

use crate::curve::{is_point, point_key, Point};
use crate::persistent_store::{AddShareError, PersistentStore, StoreState};
use crate::proto::testator::{
    PingRequest, PongResponse, SaveServerShareRequest, SaveServerShareResponse,
};
use crate::scalar::{be_value, in_scalar_range, trim, Scalar};
use crate::status::{refuse, Code, Refusal, Status};
use vstd::prelude::*;

verus! {

/// The testator's face of the service: deposits and keepalives.
pub struct TestatorServer<S> {
    pub store: S,
}

impl<S> TestatorServer<S> {
    /// The testator's face over a store.
    pub fn new(persistent_store: S) -> (server: Self)
        ensures
            server.store == persistent_store,
    {
        TestatorServer { store: persistent_store }
    }
}

/// The sentence with which a deposit is turned away for its arguments, if
/// it is: the public key must spell a point, the share a number in scalar
/// range.
pub open spec fn deposit_flaw(request: SaveServerShareRequest) -> Option<Seq<char>> {
    if !is_point(request.public_key@) {
        Some("invalid public key"@)
    } else if !in_scalar_range(be_value(request.server_secret_share@)) {
        Some("invalid secret share"@)
    } else {
        None
    }
}

/// What a deposit comes to on a steady store that stands at `state`: the
/// state with the share on file, or the refusal.
pub open spec fn deposit_outcome(state: StoreState, request: SaveServerShareRequest) -> Result<
    StoreState,
    Refusal,
> {
    let key = point_key(request.public_key@);
    match deposit_flaw(request) {
        Some(sentence) => Err(Refusal { code: Code::InvalidArgument, sentence }),
        None => if state.shares.contains_key(key) {
            Err(refuse(Code::AlreadyExists, "server share already exists"))
        } else {
            Ok(state.with_share(key, trim(request.server_secret_share@)))
        },
    }
}

/// What a ping comes to on a steady store that stands at `state`.
pub open spec fn ping_outcome(state: StoreState) -> Result<StoreState, Refusal> {
    if state.counter < u128::MAX {
        Ok(state.after_ping())
    } else {
        Err(refuse(Code::Internal, "increasing of ping counter resulted in error"))
    }
}

/// Reads the arguments of a deposit.
pub fn decode_deposit(request: &SaveServerShareRequest) -> (decoded: Result<
    (Point, Scalar),
    Status,
>)
    ensures
        match decoded {
            Ok((public_key, share)) => {
                &&& deposit_flaw(*request) is None
                &&& public_key@ == point_key(request.public_key@)
                &&& share@ == trim(request.server_secret_share@)
            },
            Err(status) => {
                &&& deposit_flaw(*request) matches Some(sentence)
                &&& status.code == Code::InvalidArgument
                &&& status.message@ == sentence
            },
        },
{
    let public_key = match Point::from_bytes(request.public_key.as_slice()) {
        Some(point) => point,
        None => {
            return Err(Status::invalid_argument("invalid public key"));
        },
    };
    let share = match Scalar::from_bytes(request.server_secret_share.as_slice()) {
        Some(scalar) => scalar,
        None => {
            return Err(Status::invalid_argument("invalid secret share"));
        },
    };
    Ok((public_key, share))
}

/// What the testator hears of a deposit, from what the store said.
pub fn deposit_reply<E>(added: Result<(), AddShareError<E>>) -> (reply: Result<
    SaveServerShareResponse,
    Status,
>)
    ensures
        match added {
            Ok(_) => reply is Ok,
            Err(AddShareError::AlreadyExists) => reply matches Err(status) && status.says(
                Code::AlreadyExists,
                "server share already exists",
            ),
            Err(AddShareError::Store(_)) => reply matches Err(status) && status.says(
                Code::Internal,
                "adding share to persistent store resulted in error",
            ),
        },
{
    match added {
        Ok(_) => Ok(SaveServerShareResponse {  }),
        Err(AddShareError::AlreadyExists) => Err(
            Status::already_exists("server share already exists"),
        ),
        Err(AddShareError::Store(_)) => Err(
            Status::internal("adding share to persistent store resulted in error"),
        ),
    }
}

/// What the testator hears of a ping, from what the store said.
pub fn ping_reply<E>(counted: Result<u128, E>) -> (reply: Result<PongResponse, Status>)
    ensures
        match counted {
            Ok(_) => reply is Ok,
            Err(_) => reply matches Err(status) && status.says(
                Code::Internal,
                "increasing of ping counter resulted in error",
            ),
        },
{
    match counted {
        Ok(_) => Ok(PongResponse {  }),
        Err(_) => Err(Status::internal("increasing of ping counter resulted in error")),
    }
}

impl<S: PersistentStore> TestatorServer<S> {
    /// Counts a keepalive: a new epoch begins and the challenge of the old
    /// one is gone.
    pub fn ping(&mut self, _request: PingRequest) -> (pong: Result<PongResponse, Status>)
        ensures
            final(self).store.state().wf(),
            old(self).store.state().evolves_to(final(self).store.state()),
            match pong {
                Ok(_) => {
                    &&& old(self).store.state().counter < final(self).store.state().counter
                    &&& final(self).store.state().challenge is None
                },
                Err(status) => status.says(
                    Code::Internal,
                    "increasing of ping counter resulted in error",
                ),
            },
            old(self).store.steady() ==> {
                &&& final(self).store.steady()
                &&& match ping_outcome(old(self).store.state()) {
                    Ok(next) => pong is Ok && final(self).store.state() == next,
                    Err(refusal) => {
                        &&& pong matches Err(status) && status@ == refusal
                        &&& final(self).store.state() == old(self).store.state()
                    },
                }
            },
    {
        let counted = self.store.increase_ping_counter();
        ping_reply(counted)
    }

    /// Files the server's share of a secret under the joint public key.
    ///
    /// A deposit with an argument that cannot be read is turned away before
    /// the store is asked. A key that has a share keeps it.
    pub fn save_server_share(&mut self, request: SaveServerShareRequest) -> (saved: Result<
        SaveServerShareResponse,
        Status,
    >)
        ensures
            old(self).store.state().evolves_to(final(self).store.state()),
            match deposit_flaw(request) {
                Some(sentence) => {
                    &&& saved matches Err(status) && status.code == Code::InvalidArgument
                        && status.message@ == sentence
                    &&& final(self).store == old(self).store
                },
                None => match saved {
                    Ok(_) => {
                        let key = point_key(request.public_key@);
                        &&& !old(self).store.state().shares.contains_key(key)
                        &&& final(self).store.state().shares.contains_key(key)
                        &&& final(self).store.state().shares[key] == trim(
                            request.server_secret_share@,
                        )
                    },
                    Err(status) => {
                        ||| {
                            &&& status.says(Code::AlreadyExists, "server share already exists")
                            &&& final(self).store.state().shares.contains_key(
                                point_key(request.public_key@),
                            )
                        }
                        ||| status.says(
                            Code::Internal,
                            "adding share to persistent store resulted in error",
                        )
                    },
                },
            },
            old(self).store.steady() ==> {
                &&& final(self).store.steady()
                &&& match deposit_outcome(old(self).store.state(), request) {
                    Ok(next) => saved is Ok && final(self).store.state() == next,
                    Err(refusal) => {
                        &&& saved matches Err(status) && status@ == refusal
                        &&& final(self).store.state() == old(self).store.state()
                    },
                }
            },
    {
        let (public_key, share) = match decode_deposit(&request) {
            Ok(decoded) => decoded,
            Err(status) => {
                return Err(status);
            },
        };
        let added = self.store.add_server_secret_share(public_key, share);
        deposit_reply(added)
    }
}

/// A deposit that was accepted is refused when it comes again, whatever
/// share it brings, and the first share stays on file.
pub proof fn lemma_deposit_is_not_repeated(
    state: StoreState,
    first: SaveServerShareRequest,
    second: SaveServerShareRequest,
)
    requires
        deposit_outcome(state, first) is Ok,
        second.public_key@ == first.public_key@,
    ensures
        ({
            let key = point_key(first.public_key@);
            let filed = deposit_outcome(state, first)->Ok_0;
            &&& filed.shares.contains_key(key)
            &&& filed.shares[key] == trim(first.server_secret_share@)
            &&& deposit_outcome(filed, second) is Err
            &&& deposit_outcome(filed, second)->Err_0.code == if deposit_flaw(second) is Some {
                Code::InvalidArgument
            } else {
                Code::AlreadyExists
            }
        }),
{
}

} // verus!
