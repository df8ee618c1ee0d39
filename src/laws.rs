use vstd::prelude::*;
use crate::escrow::{EscrowError, RegistryModel, claim_outcome, intake_outcome, players_distinct};
use crate::message::MsgModel;

verus! {

/// One state-changing call on the escrow, with its authenticated caller.
pub enum Call {
    Intake {
        caller: Seq<char>,
        sender_id: Seq<char>,
        previous_owner_id: Seq<char>,
        token_id: Seq<char>,
        msg: MsgModel,
    },
    Claim {
        caller: Seq<char>,
        match_id: Seq<char>,
        winner: Seq<char>,
        loser_nft_contract_id: Seq<char>,
        loser_token_id: Seq<char>,
    },
}

pub open spec fn call_outcome(reg: RegistryModel, call: Call) -> Result<RegistryModel, EscrowError> {
    match call {
        Call::Intake { caller, sender_id, previous_owner_id, token_id, msg } => intake_outcome(
            reg,
            caller,
            sender_id,
            previous_owner_id,
            token_id,
            msg,
        ),
        Call::Claim { caller, match_id, winner, loser_nft_contract_id, loser_token_id } => claim_outcome(
            reg,
            caller,
            match_id,
            winner,
            loser_nft_contract_id,
            loser_token_id,
        ),
    }
}

/// The registry once `call` has run: a refused call leaves it as it was.
pub open spec fn after(reg: RegistryModel, call: Call) -> RegistryModel {
    match call_outcome(reg, call) {
        Ok(r) => r,
        Err(_) => reg,
    }
}

/// The registry once `calls` have run in order.
pub open spec fn run(reg: RegistryModel, calls: Seq<Call>) -> RegistryModel
    decreases calls.len(),
{
    if calls.len() == 0 {
        reg
    } else {
        after(run(reg, calls.drop_last()), calls.last())
    }
}

pub open spec fn claims_match(call: Call, id: Seq<char>) -> bool {
    match call {
        Call::Claim { match_id, .. } => match_id == id,
        _ => false,
    }
}

/// No call gives a match two equal players.
pub proof fn lemma_players_stay_distinct(reg: RegistryModel, call: Call)
    requires
        players_distinct(reg),
    ensures
        players_distinct(after(reg, call)),
{
}

/// Every registry that calls can reach from an empty one has two different
/// players in each match.
pub proof fn lemma_reachable_players_distinct(calls: Seq<Call>)
    ensures
        players_distinct(run(RegistryModel::empty(), calls)),
    decreases calls.len(),
{
    if calls.len() > 0 {
        lemma_reachable_players_distinct(calls.drop_last());
        lemma_players_stay_distinct(run(RegistryModel::empty(), calls.drop_last()), calls.last());
    }
}

/// Once a match exists, no call removes it or changes its players.
pub proof fn lemma_players_fixed(reg: RegistryModel, call: Call, id: Seq<char>)
    requires
        reg.contains_key(id),
    ensures
        after(reg, call).contains_key(id),
        after(reg, call)[id].player_a == reg[id].player_a,
        after(reg, call)[id].player_b == reg[id].player_b,
{
}

/// A finished match stays finished, and no call changes it any more.
pub proof fn lemma_finished_stays(reg: RegistryModel, call: Call, id: Seq<char>)
    requires
        reg.contains_key(id),
        reg[id].finished,
    ensures
        after(reg, call).contains_key(id),
        after(reg, call)[id] == reg[id],
        after(reg, call)[id].finished,
{
}

/// A deposit that a call puts in place was made by an intake, and names that
/// intake's authenticated caller as its NFT contract.
pub proof fn lemma_deposit_from_caller(reg: RegistryModel, call: Call, id: Seq<char>)
    requires
        after(reg, call).contains_key(id),
    ensures
        ({
            let st = after(reg, call)[id];
            let changed_a = !reg.contains_key(id) || st.deposit_a != reg[id].deposit_a;
            let changed_b = !reg.contains_key(id) || st.deposit_b != reg[id].deposit_b;
            match call {
                Call::Intake { caller, .. } => (changed_a && st.deposit_a is Some
                    ==> st.deposit_a->Some_0.nft_contract_id == caller) && (changed_b
                    && st.deposit_b is Some ==> st.deposit_b->Some_0.nft_contract_id == caller),
                Call::Claim { .. } => reg.contains_key(id) && !changed_a && !changed_b,
            }
        }),
{
}

/// A claim that succeeds leaves its match finished.
pub proof fn lemma_claim_finishes(reg: RegistryModel, call: Call, id: Seq<char>)
    requires
        claims_match(call, id),
        call_outcome(reg, call) is Ok,
    ensures
        after(reg, call).contains_key(id),
        after(reg, call)[id].finished,
{
}

/// No claim succeeds on a finished match.
pub proof fn lemma_no_claim_when_finished(reg: RegistryModel, call: Call, id: Seq<char>)
    requires
        claims_match(call, id),
        reg.contains_key(id),
        reg[id].finished,
    ensures
        call_outcome(reg, call) is Err,
{
}

/// A finished match stays finished over any run of calls.
pub proof fn lemma_finished_stays_over_run(reg: RegistryModel, calls: Seq<Call>, id: Seq<char>)
    requires
        reg.contains_key(id),
        reg[id].finished,
    ensures
        run(reg, calls).contains_key(id),
        run(reg, calls)[id].finished,
    decreases calls.len(),
{
    if calls.len() > 0 {
        lemma_finished_stays_over_run(reg, calls.drop_last(), id);
        lemma_finished_stays(run(reg, calls.drop_last()), calls.last(), id);
    }
}

proof fn lemma_run_split(reg: RegistryModel, calls: Seq<Call>, k: int)
    requires
        0 <= k <= calls.len(),
    ensures
        run(reg, calls) == run(run(reg, calls.take(k)), calls.skip(k)),
    decreases calls.len(),
{
    if k < calls.len() {
        lemma_run_split(reg, calls.drop_last(), k);
        assert(calls.drop_last().take(k) =~= calls.take(k));
        assert(calls.skip(k).drop_last() =~= calls.drop_last().skip(k));
    } else {
        assert(calls.take(k) =~= calls);
        assert(calls.skip(k) =~= Seq::<Call>::empty());
    }
}

proof fn lemma_run_step(reg: RegistryModel, calls: Seq<Call>, i: int)
    requires
        0 <= i < calls.len(),
    ensures
        run(reg, calls.take(i + 1)) == after(run(reg, calls.take(i)), calls[i]),
{
    assert(calls.take(i + 1).drop_last() =~= calls.take(i));
}

/// Over any run of calls, at most one claim on a match succeeds.
pub proof fn lemma_claim_at_most_once(reg: RegistryModel, calls: Seq<Call>, id: Seq<char>, i: int, j: int)
    requires
        0 <= i < j < calls.len(),
        claims_match(calls[i], id),
        claims_match(calls[j], id),
        call_outcome(run(reg, calls.take(i)), calls[i]) is Ok,
    ensures
        call_outcome(run(reg, calls.take(j)), calls[j]) is Err,
{
    let s1 = run(reg, calls.take(i + 1));
    lemma_run_step(reg, calls, i);
    lemma_claim_finishes(run(reg, calls.take(i)), calls[i], id);
    let tail = calls.take(j).skip(i + 1);
    lemma_run_split(reg, calls.take(j), i + 1);
    assert(calls.take(j).take(i + 1) =~= calls.take(i + 1));
    lemma_finished_stays_over_run(s1, tail, id);
    lemma_no_claim_when_finished(run(reg, calls.take(j)), calls[j], id);
}

/// A refused call changes nothing, and refusing it again gives the same error.
pub proof fn lemma_refusal_changes_nothing(reg: RegistryModel, call: Call)
    requires
        call_outcome(reg, call) is Err,
    ensures
        after(reg, call) == reg,
        call_outcome(after(reg, call), call) == call_outcome(reg, call),
{
}

/// Replaying a claim that succeeded is refused as already finished, and
/// changes nothing.
pub proof fn lemma_claim_replay(reg: RegistryModel, call: Call)
    requires
        call is Claim,
        call_outcome(reg, call) is Ok,
    ensures
        call_outcome(after(reg, call), call) == Err::<RegistryModel, EscrowError>(EscrowError::AlreadyFinished),
        after(after(reg, call), call) == after(reg, call),
{
}

} // verus!
