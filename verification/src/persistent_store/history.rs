//! What holds of a store over its whole life, whoever acts on it.
//!
//! Every operation of a store leaves it in a state that follows the one
//! before ([`StoreState::evolves_to`]). A history is any run of such states.

use crate::persistent_store::challenge::ChallengeView;
use crate::persistent_store::StoreState;
use vstd::prelude::*;

verus! {

/// Whether `states` can be the states of one store in the order in which it
/// went through them.
pub open spec fn is_history(states: Seq<StoreState>) -> bool {
    &&& forall|i: int| 0 <= i < states.len() ==> (#[trigger] states[i]).wf()
    &&& forall|i: int|
        0 <= i < states.len() - 1 ==> (#[trigger] states[i]).evolves_to(states[i + 1])
}

/// In a history every state follows every earlier one, however many steps
/// lie between them.
pub proof fn lemma_history_evolves(states: Seq<StoreState>, earlier: int, later: int)
    requires
        is_history(states),
        0 <= earlier <= later < states.len(),
    ensures
        states[earlier].evolves_to(states[later]),
    decreases later - earlier,
{
    if earlier < later {
        lemma_history_evolves(states, earlier, later - 1);
    }
}

/// The ping counter never goes down.
pub proof fn lemma_counter_never_decreases(states: Seq<StoreState>, earlier: int, later: int)
    requires
        is_history(states),
        0 <= earlier <= later < states.len(),
    ensures
        states[earlier].counter <= states[later].counter,
{
    lemma_history_evolves(states, earlier, later);
}

/// A challenge on file carries the ping counter of the moment as its id.
pub proof fn lemma_challenge_is_of_current_epoch(
    states: Seq<StoreState>,
    at: int,
    challenge: ChallengeView,
)
    requires
        is_history(states),
        0 <= at < states.len(),
        states[at].challenge == Some(challenge),
    ensures
        challenge.id == states[at].counter,
{
}

/// A share that is on file stays on file, unchanged: a later deposit under
/// the same key cannot replace it.
pub proof fn lemma_share_stays(
    states: Seq<StoreState>,
    earlier: int,
    later: int,
    public_key: Seq<u8>,
)
    requires
        is_history(states),
        0 <= earlier <= later < states.len(),
        states[earlier].shares.contains_key(public_key),
    ensures
        states[later].shares.contains_key(public_key),
        states[later].shares[public_key] == states[earlier].shares[public_key],
{
    lemma_history_evolves(states, earlier, later);
}

/// An epoch has at most one challenge: two challenges that are on file at
/// two moments of the same epoch are the same challenge.
pub proof fn lemma_one_challenge_per_epoch(
    states: Seq<StoreState>,
    earlier: int,
    later: int,
    first: ChallengeView,
    second: ChallengeView,
)
    requires
        is_history(states),
        0 <= earlier <= later < states.len(),
        states[earlier].challenge == Some(first),
        states[later].challenge == Some(second),
        first.id == second.id,
    ensures
        first == second,
{
    lemma_history_evolves(states, earlier, later);
}

/// Once a challenge is on file, a ping has come before any later moment at
/// which it no longer is.
pub proof fn lemma_challenge_goes_only_by_ping(states: Seq<StoreState>, earlier: int, later: int)
    requires
        is_history(states),
        0 <= earlier <= later < states.len(),
        states[earlier].challenge is Some,
        states[later].challenge != states[earlier].challenge,
    ensures
        states[earlier].counter < states[later].counter,
{
    lemma_history_evolves(states, earlier, later);
}

/// After a ping the epoch has no challenge, and a deposit does not give it
/// one: only setting a challenge does.
pub proof fn lemma_ping_erases_challenge(state: StoreState, public_key: Seq<u8>, share: Seq<u8>)
    requires
        state.counter < u128::MAX,
    ensures
        state.after_ping().challenge is None,
        state.after_ping().wf(),
        state.after_ping().counter == state.counter + 1,
        state.after_ping().with_share(public_key, share).challenge is None,
{
}

/// The steps that a steady store takes are steps of a history: a ping, a
/// deposit under a free key and a challenge set in a free epoch each lead
/// to a state that follows.
pub proof fn lemma_steps_follow(
    state: StoreState,
    public_key: Seq<u8>,
    share: Seq<u8>,
    challenge: ChallengeView,
)
    requires
        state.wf(),
    ensures
        state.counter < u128::MAX ==> state.evolves_to(state.after_ping()),
        !state.shares.contains_key(public_key) ==> state.evolves_to(
            state.with_share(public_key, share),
        ) && state.with_share(public_key, share).wf(),
        state.admits(challenge) ==> state.evolves_to(state.with_challenge(challenge))
            && state.with_challenge(challenge).wf(),
{
}

/// Where setting a challenge has succeeded, the challenge was for the
/// current epoch, and the epoch had no challenge before or had this one.
pub proof fn lemma_set_challenge_needs_free_epoch(
    before: StoreState,
    after: StoreState,
    challenge: ChallengeView,
)
    requires
        before.evolves_to(after),
        after.counter == challenge.id,
        after.challenge == Some(challenge),
        before.counter == challenge.id,
    ensures
        before.challenge is None || before.challenge == Some(challenge),
{
}

} // verus!
