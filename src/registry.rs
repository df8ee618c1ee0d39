use vstd::prelude::*;

verus! {

/// What the escrow knows of one NFT held in custody.
pub struct DepositModel {
    pub nft_contract_id: Seq<char>,
    pub token_id: Seq<char>,
    pub original_owner_id: Seq<char>,
    pub deposited_by: Seq<char>,
}

/// What the escrow knows of one match.
pub struct MatchModel {
    pub player_a: Seq<char>,
    pub player_b: Seq<char>,
    pub deposit_a: Option<DepositModel>,
    pub deposit_b: Option<DepositModel>,
    pub finished: bool,
}

/// One NFT held in custody for one side of a match.
#[derive(Clone, Debug, PartialEq, Eq)]
pub struct Deposit {
    pub nft_contract_id: String,
    pub token_id: String,
    pub original_owner_id: String,
    pub deposited_by: String,
}

impl View for Deposit {
    type V = DepositModel;

    open spec fn view(&self) -> DepositModel {
        DepositModel {
            nft_contract_id: self.nft_contract_id@,
            token_id: self.token_id@,
            original_owner_id: self.original_owner_id@,
            deposited_by: self.deposited_by@,
        }
    }
}

pub open spec fn deposit_model(d: Option<Deposit>) -> Option<DepositModel> {
    match d {
        Some(d) => Some(d@),
        None => None,
    }
}

impl Deposit {
    /// A copy whose fields hold the same text.
    pub fn duplicate(&self) -> (r: Deposit)
        ensures
            r@ == self@,
    {
        Deposit {
            nft_contract_id: self.nft_contract_id.clone(),
            token_id: self.token_id.clone(),
            original_owner_id: self.original_owner_id.clone(),
            deposited_by: self.deposited_by.clone(),
        }
    }
}

fn duplicate_slot(d: &Option<Deposit>) -> (r: Option<Deposit>)
    ensures
        deposit_model(r) == deposit_model(*d),
{
    match d {
        Some(d) => Some(d.duplicate()),
        None => None,
    }
}

/// The escrow's record of one match: its two players, one optional deposit
/// per side, and whether the match has been claimed.
#[derive(Clone, Debug, PartialEq, Eq)]
pub struct MatchState {
    pub player_a: String,
    pub player_b: String,
    pub deposit_a: Option<Deposit>,
    pub deposit_b: Option<Deposit>,
    pub finished: bool,
}

impl View for MatchState {
    type V = MatchModel;

    open spec fn view(&self) -> MatchModel {
        MatchModel {
            player_a: self.player_a@,
            player_b: self.player_b@,
            deposit_a: deposit_model(self.deposit_a),
            deposit_b: deposit_model(self.deposit_b),
            finished: self.finished,
        }
    }
}

impl MatchState {
    /// A copy whose fields hold the same text.
    pub fn duplicate(&self) -> (r: MatchState)
        ensures
            r@ == self@,
    {
        MatchState {
            player_a: self.player_a.clone(),
            player_b: self.player_b.clone(),
            deposit_a: duplicate_slot(&self.deposit_a),
            deposit_b: duplicate_slot(&self.deposit_b),
            finished: self.finished,
        }
    }
}

/// The match registry: match ids mapped to match states, each id at most once.
pub struct Registry {
    entries: Vec<(String, MatchState)>,
    model: Ghost<Map<Seq<char>, MatchModel>>,
}

impl View for Registry {
    type V = Map<Seq<char>, MatchModel>;

    closed spec fn view(&self) -> Map<Seq<char>, MatchModel> {
        self.model@
    }
}

impl Registry {
    /// The entries hold each id once, and hold exactly the ids and states of the view.
    pub closed spec fn wf(&self) -> bool {
        &&& forall|i: int, j: int|
            0 <= i < j < self.entries@.len() ==> #[trigger] self.entries@[i].0@
                != #[trigger] self.entries@[j].0@
        &&& forall|i: int|
            0 <= i < self.entries@.len() ==> self.model@.contains_key(#[trigger] self.entries@[i].0@)
                && self.model@[self.entries@[i].0@] == self.entries@[i].1@
        &&& forall|k: Seq<char>|
            #[trigger] self.model@.contains_key(k) ==> exists|i: int|
                0 <= i < self.entries@.len() && #[trigger] self.entries@[i].0@ == k
    }

    pub fn new() -> (r: Registry)
        ensures
            r.wf(),
            r@ == Map::<Seq<char>, MatchModel>::empty(),
    {
        Registry { entries: Vec::new(), model: Ghost(Map::empty()) }
    }

    fn position(&self, match_id: &String) -> (r: Option<usize>)
        requires
            self.wf(),
        ensures
            match r {
                Some(i) => i < self.entries@.len() && self.entries@[i as int].0@ == match_id@,
                None => !self@.contains_key(match_id@),
            },
    {
        let mut i: usize = 0;
        while i < self.entries.len()
            invariant
                self.wf(),
                i <= self.entries@.len(),
                forall|j: int| 0 <= j < i ==> #[trigger] self.entries@[j].0@ != match_id@,
            decreases self.entries@.len() - i,
        {
            if self.entries[i].0 == *match_id {
                return Some(i);
            }
            i = i + 1;
        }
        None
    }

    /// The state stored under `match_id`, if there is one.
    pub fn get(&self, match_id: &String) -> (r: Option<&MatchState>)
        requires
            self.wf(),
        ensures
            match r {
                Some(st) => self@.contains_key(match_id@) && st@ == self@[match_id@],
                None => !self@.contains_key(match_id@),
            },
    {
        match self.position(match_id) {
            Some(i) => Some(&self.entries[i].1),
            None => None,
        }
    }

    /// Stores `state` under `match_id`, replacing what was there.
    pub fn put(&mut self, match_id: String, state: MatchState)
        requires
            old(self).wf(),
        ensures
            final(self).wf(),
            final(self)@ == old(self)@.insert(match_id@, state@),
    {
        let ghost key = match_id@;
        let ghost value = state@;
        match self.position(&match_id) {
            Some(i) => {
                self.entries.set(i, (match_id, state));
                self.model = Ghost(self.model@.insert(key, value));
                assert forall|k: Seq<char>| #[trigger] self.model@.contains_key(k) implies exists|j: int|
                    0 <= j < self.entries@.len() && #[trigger] self.entries@[j].0@ == k by {
                    if k != key {
                        let j = choose|j: int| 0 <= j < old(self).entries@.len() && #[trigger] old(self).entries@[j].0@ == k;
                        assert(self.entries@[j].0@ == k);
                    } else {
                        assert(self.entries@[i as int].0@ == k);
                    }
                }
            },
            None => {
                self.entries.push((match_id, state));
                self.model = Ghost(self.model@.insert(key, value));
                assert forall|k: Seq<char>| #[trigger] self.model@.contains_key(k) implies exists|j: int|
                    0 <= j < self.entries@.len() && #[trigger] self.entries@[j].0@ == k by {
                    if k != key {
                        let j = choose|j: int| 0 <= j < old(self).entries@.len() && #[trigger] old(self).entries@[j].0@ == k;
                        assert(self.entries@[j].0@ == k);
                    } else {
                        assert(self.entries@[old(self).entries@.len() as int].0@ == k);
                    }
                }
            },
        }
    }
}

} // verus!
