use vstd::prelude::*;
use vstd::string::*;
use crate::message::{MsgModel, TransferCallMsg, msg_from_json, parse_transfer_msg, msg_result_model};
use crate::registry::{Deposit, DepositModel, MatchModel, MatchState, Registry};

verus! {

/// Why a call was refused; every refusal leaves the escrow as it was.
#[derive(Clone, Copy, Debug, PartialEq, Eq)]
pub enum EscrowError {
    BadMessage,
    InvalidSide,
    PlayersEqual,
    MatchPlayersMismatch,
    AlreadyFinished,
    SideOccupied,
    MatchNotFound,
    DepositMissing,
    NotAPlayer,
    UnauthorizedCaller,
    TokenMismatch,
}

/// The native-token amount, in its indivisible unit, attached to the outbound transfer.
pub const TRANSFER_DEPOSIT: u128 = 1;

/// The gas, in Tgas, reserved for the outbound transfer.
pub const TRANSFER_GAS_TGAS: u64 = 25;

/// The outbound call a successful claim asks for:
/// `nft_transfer(receiver_id, token_id, None, None)` on `nft_contract_id`.
#[derive(Clone, Debug, PartialEq, Eq)]
pub struct NftTransfer {
    pub nft_contract_id: String,
    pub receiver_id: String,
    pub token_id: String,
    pub attached_deposit: u128,
    pub gas_tgas: u64,
}

/// A match as readers see it: the deposits only by whether they are present.
#[derive(Clone, Debug, PartialEq, Eq)]
pub struct MatchView {
    pub match_id: String,
    pub player_a: String,
    pub player_b: String,
    pub has_deposit_a: bool,
    pub has_deposit_b: bool,
    pub finished: bool,
}

pub struct MatchViewModel {
    pub match_id: Seq<char>,
    pub player_a: Seq<char>,
    pub player_b: Seq<char>,
    pub has_deposit_a: bool,
    pub has_deposit_b: bool,
    pub finished: bool,
}

impl View for MatchView {
    type V = MatchViewModel;

    open spec fn view(&self) -> MatchViewModel {
        MatchViewModel {
            match_id: self.match_id@,
            player_a: self.player_a@,
            player_b: self.player_b@,
            has_deposit_a: self.has_deposit_a,
            has_deposit_b: self.has_deposit_b,
            finished: self.finished,
        }
    }
}

pub type RegistryModel = Map<Seq<char>, MatchModel>;

/// Every match in the registry has two different players.
pub open spec fn players_distinct(reg: RegistryModel) -> bool {
    forall|id: Seq<char>| #[trigger] reg.contains_key(id) ==> reg[id].player_a != reg[id].player_b
}

pub open spec fn side_a() -> Seq<char> {
    seq!['A']
}

pub open spec fn side_b() -> Seq<char> {
    seq!['B']
}

pub open spec fn fresh_match(player_a: Seq<char>, player_b: Seq<char>) -> MatchModel {
    MatchModel { player_a, player_b, deposit_a: None, deposit_b: None, finished: false }
}

/// The registry after an intake of `token_id` from the NFT contract `caller`,
/// or the reason it is refused.
pub open spec fn intake_outcome(
    reg: RegistryModel,
    caller: Seq<char>,
    sender_id: Seq<char>,
    previous_owner_id: Seq<char>,
    token_id: Seq<char>,
    msg: MsgModel,
) -> Result<RegistryModel, EscrowError> {
    if msg.side != side_a() && msg.side != side_b() {
        Err(EscrowError::InvalidSide)
    } else if msg.player_a == msg.player_b {
        Err(EscrowError::PlayersEqual)
    } else {
        let st = if reg.contains_key(msg.match_id) {
            reg[msg.match_id]
        } else {
            fresh_match(msg.player_a, msg.player_b)
        };
        let dep = DepositModel {
            nft_contract_id: caller,
            token_id,
            original_owner_id: previous_owner_id,
            deposited_by: sender_id,
        };
        if st.player_a != msg.player_a || st.player_b != msg.player_b {
            Err(EscrowError::MatchPlayersMismatch)
        } else if st.finished {
            Err(EscrowError::AlreadyFinished)
        } else if msg.side == side_a() {
            if st.deposit_a is Some {
                Err(EscrowError::SideOccupied)
            } else {
                Ok(reg.insert(msg.match_id, MatchModel { deposit_a: Some(dep), ..st }))
            }
        } else {
            if st.deposit_b is Some {
                Err(EscrowError::SideOccupied)
            } else {
                Ok(reg.insert(msg.match_id, MatchModel { deposit_b: Some(dep), ..st }))
            }
        }
    }
}

/// The registry after `caller` claims, for `winner`, the token
/// `(loser_nft_contract_id, loser_token_id)` of match `match_id`, or the
/// reason it is refused.
pub open spec fn claim_outcome(
    reg: RegistryModel,
    caller: Seq<char>,
    match_id: Seq<char>,
    winner: Seq<char>,
    loser_nft_contract_id: Seq<char>,
    loser_token_id: Seq<char>,
) -> Result<RegistryModel, EscrowError> {
    if caller != winner {
        Err(EscrowError::UnauthorizedCaller)
    } else if !reg.contains_key(match_id) {
        Err(EscrowError::MatchNotFound)
    } else {
        let st = reg[match_id];
        if st.finished {
            Err(EscrowError::AlreadyFinished)
        } else if st.deposit_a is None || st.deposit_b is None {
            Err(EscrowError::DepositMissing)
        } else if winner != st.player_a && winner != st.player_b {
            Err(EscrowError::NotAPlayer)
        } else {
            let loser = if winner == st.player_a {
                st.deposit_b->Some_0
            } else {
                st.deposit_a->Some_0
            };
            if loser.nft_contract_id != loser_nft_contract_id || loser.token_id != loser_token_id {
                Err(EscrowError::TokenMismatch)
            } else {
                Ok(reg.insert(match_id, MatchModel { finished: true, ..st }))
            }
        }
    }
}

/// What a reader sees of match `match_id`.
pub open spec fn view_of(reg: RegistryModel, match_id: Seq<char>) -> Option<MatchViewModel> {
    if reg.contains_key(match_id) {
        let st = reg[match_id];
        Some(
            MatchViewModel {
                match_id,
                player_a: st.player_a,
                player_b: st.player_b,
                has_deposit_a: st.deposit_a is Some,
                has_deposit_b: st.deposit_b is Some,
                finished: st.finished,
            },
        )
    } else {
        None
    }
}

pub open spec fn view_model(r: Option<MatchView>) -> Option<MatchViewModel> {
    match r {
        Some(v) => Some(v@),
        None => None,
    }
}

fn side_is(s: &str, c: char) -> (r: bool)
    ensures
        r == (s@ == seq![c]),
{
    if s.unicode_len() != 1 {
        return false;
    }
    let first = s.get_char(0);
    proof {
        if first == c {
            assert(s@ =~= seq![c]);
        }
    }
    first == c
}

/// The escrow: a registry of matches and the rules by which deposits enter
/// it and claims leave it.
pub struct Escrow {
    matches: Registry,
}

impl View for Escrow {
    type V = RegistryModel;

    closed spec fn view(&self) -> RegistryModel {
        self.matches@
    }
}

impl Escrow {
    pub closed spec fn wf(&self) -> bool {
        self.matches.wf() && players_distinct(self.matches@)
    }

    /// A well-formed escrow has two different players in every match.
    pub proof fn lemma_wf_players_distinct(&self)
        requires
            self.wf(),
        ensures
            players_distinct(self@),
    {
    }

    /// An escrow with no matches.
    pub fn new() -> (r: Escrow)
        ensures
            r.wf(),
            r@ == RegistryModel::empty(),
    {
        Escrow { matches: Registry::new() }
    }

    /// Assigns the NFT `token_id`, just received from the NFT contract
    /// `nft_contract_id`, to the side of the match that `msg` names.
    pub fn intake(
        &mut self,
        nft_contract_id: String,
        sender_id: String,
        previous_owner_id: String,
        token_id: String,
        msg: TransferCallMsg,
    ) -> (r: Result<(), EscrowError>)
        requires
            old(self).wf(),
        ensures
            final(self).wf(),
            match intake_outcome(old(self)@, nft_contract_id@, sender_id@, previous_owner_id@, token_id@, msg@) {
                Ok(reg) => r is Ok && final(self)@ == reg,
                Err(e) => r == Err::<(), EscrowError>(e) && *final(self) == *old(self),
            },
    {
        let ghost reg = self@;
        let is_a = side_is(msg.side.as_str(), 'A');
        let is_b = side_is(msg.side.as_str(), 'B');
        if !is_a && !is_b {
            return Err(EscrowError::InvalidSide);
        }
        if msg.player_a == msg.player_b {
            return Err(EscrowError::PlayersEqual);
        }
        let mut st = match self.matches.get(&msg.match_id) {
            Some(st) => st.duplicate(),
            None => MatchState {
                player_a: msg.player_a.clone(),
                player_b: msg.player_b.clone(),
                deposit_a: None,
                deposit_b: None,
                finished: false,
            },
        };
        if !(st.player_a == msg.player_a && st.player_b == msg.player_b) {
            return Err(EscrowError::MatchPlayersMismatch);
        }
        if st.finished {
            return Err(EscrowError::AlreadyFinished);
        }
        let dep = Deposit {
            nft_contract_id,
            token_id,
            original_owner_id: previous_owner_id,
            deposited_by: sender_id,
        };
        if is_a {
            if st.deposit_a.is_some() {
                return Err(EscrowError::SideOccupied);
            }
            st.deposit_a = Some(dep);
        } else {
            if st.deposit_b.is_some() {
                return Err(EscrowError::SideOccupied);
            }
            st.deposit_b = Some(dep);
        }
        self.matches.put(msg.match_id, st);
        proof {
            assert(self@ == intake_outcome(reg, nft_contract_id@, sender_id@, previous_owner_id@, token_id@, msg@)->Ok_0);
        }
        Ok(())
    }

    /// The NFT-receiver callback: `nft_contract_id` is the authenticated caller,
    /// and `msg` the JSON intake message. `Ok(false)` tells the NFT contract to
    /// leave the token with the escrow; on `Err` the token goes back to
    /// `previous_owner_id`.
    pub fn nft_on_transfer(
        &mut self,
        nft_contract_id: String,
        sender_id: String,
        previous_owner_id: String,
        token_id: String,
        msg: String,
    ) -> (r: Result<bool, EscrowError>)
        requires
            old(self).wf(),
        ensures
            final(self).wf(),
            match msg_from_json(msg@) {
                Err(e) => r == Err::<bool, EscrowError>(e) && *final(self) == *old(self),
                Ok(m) => match intake_outcome(old(self)@, nft_contract_id@, sender_id@, previous_owner_id@, token_id@, m) {
                    Ok(reg) => r == Ok::<bool, EscrowError>(false) && final(self)@ == reg,
                    Err(e) => r == Err::<bool, EscrowError>(e) && *final(self) == *old(self),
                },
            },
    {
        let parsed = parse_transfer_msg(msg.as_str());
        match parsed {
            Err(e) => Err(e),
            Ok(m) => match self.intake(nft_contract_id, sender_id, previous_owner_id, token_id, m) {
                Ok(()) => Ok(false),
                Err(e) => Err(e),
            },
        }
    }

    /// `caller` claims, for `winner`, the loser's token
    /// `(loser_nft_contract_id, loser_token_id)`. The match is marked finished
    /// before the transfer is handed back for the host to send.
    pub fn claim(
        &mut self,
        caller: String,
        match_id: String,
        winner: String,
        loser_nft_contract_id: String,
        loser_token_id: String,
    ) -> (r: Result<NftTransfer, EscrowError>)
        requires
            old(self).wf(),
        ensures
            final(self).wf(),
            match claim_outcome(old(self)@, caller@, match_id@, winner@, loser_nft_contract_id@, loser_token_id@) {
                Ok(reg) => final(self)@ == reg && final(self)@[match_id@].finished && match r {
                    Ok(t) => t.nft_contract_id@ == loser_nft_contract_id@ && t.receiver_id@ == winner@
                        && t.token_id@ == loser_token_id@ && t.attached_deposit == TRANSFER_DEPOSIT
                        && t.gas_tgas == TRANSFER_GAS_TGAS,
                    Err(_) => false,
                },
                Err(e) => r matches Err(e2) && e2 == e && *final(self) == *old(self),
            },
    {
        let ghost reg = self@;
        if caller != winner {
            return Err(EscrowError::UnauthorizedCaller);
        }
        let mut st = match self.matches.get(&match_id) {
            Some(st) => st.duplicate(),
            None => {
                return Err(EscrowError::MatchNotFound);
            },
        };
        if st.finished {
            return Err(EscrowError::AlreadyFinished);
        }
        if st.deposit_a.is_none() || st.deposit_b.is_none() {
            return Err(EscrowError::DepositMissing);
        }
        if !(winner == st.player_a || winner == st.player_b) {
            return Err(EscrowError::NotAPlayer);
        }
        let matches_loser = {
            let loser = if winner == st.player_a {
                st.deposit_b.as_ref().unwrap()
            } else {
                st.deposit_a.as_ref().unwrap()
            };
            loser.nft_contract_id == loser_nft_contract_id && loser.token_id == loser_token_id
        };
        if !matches_loser {
            return Err(EscrowError::TokenMismatch);
        }
        st.finished = true;
        self.matches.put(match_id, st);
        Ok(
            NftTransfer {
                nft_contract_id: loser_nft_contract_id,
                receiver_id: winner,
                token_id: loser_token_id,
                attached_deposit: TRANSFER_DEPOSIT,
                gas_tgas: TRANSFER_GAS_TGAS,
            },
        )
    }

    /// Puts back a match read from durable storage under `match_id`. A record
    /// whose two players are equal breaks the escrow's invariant and is refused.
    pub fn restore(&mut self, match_id: String, state: MatchState) -> (r: Result<(), EscrowError>)
        requires
            old(self).wf(),
        ensures
            final(self).wf(),
            state.player_a@ == state.player_b@ ==> r == Err::<(), EscrowError>(EscrowError::PlayersEqual)
                && *final(self) == *old(self),
            state.player_a@ != state.player_b@ ==> r is Ok && final(self)@ == old(self)@.insert(
                match_id@,
                state@,
            ),
    {
        if state.player_a == state.player_b {
            return Err(EscrowError::PlayersEqual);
        }
        self.matches.put(match_id, state);
        Ok(())
    }

    /// The whole state of match `match_id`, deposits included, for writing
    /// back to durable storage.
    pub fn match_state(&self, match_id: &String) -> (r: Option<MatchState>)
        requires
            self.wf(),
        ensures
            match r {
                Some(st) => self@.contains_key(match_id@) && st@ == self@[match_id@],
                None => !self@.contains_key(match_id@),
            },
    {
        match self.matches.get(match_id) {
            Some(st) => Some(st.duplicate()),
            None => None,
        }
    }

    /// The view of match `match_id`, if it exists.
    pub fn get_match(&self, match_id: String) -> (r: Option<MatchView>)
        requires
            self.wf(),
        ensures
            view_model(r) == view_of(self@, match_id@),
    {
        match self.matches.get(&match_id) {
            Some(st) => Some(
                MatchView {
                    match_id,
                    player_a: st.player_a.clone(),
                    player_b: st.player_b.clone(),
                    has_deposit_a: st.deposit_a.is_some(),
                    has_deposit_b: st.deposit_b.is_some(),
                    finished: st.finished,
                },
            ),
            None => None,
        }
    }
}

} // verus!
