use nft_escrow::{Deposit, Escrow, EscrowError, MatchState, MatchView, NftTransfer};

fn s(x: &str) -> String {
    x.to_string()
}

fn intake_msg(match_id: &str, side: &str, player_a: &str, player_b: &str) -> String {
    format!(
        "{{\"match_id\":\"{}\",\"side\":\"{}\",\"player_a\":\"{}\",\"player_b\":\"{}\"}}",
        match_id, side, player_a, player_b
    )
}

fn deposit(
    e: &mut Escrow,
    nft: &str,
    owner: &str,
    token: &str,
    msg: String,
) -> Result<bool, EscrowError> {
    e.nft_on_transfer(s(nft), s(owner), s(owner), s(token), msg)
}

fn both_deposited() -> Escrow {
    let mut e = Escrow::new();
    assert_eq!(deposit(&mut e, "nft1", "alice", "tok1", intake_msg("m1", "A", "alice", "bob")), Ok(false));
    assert_eq!(deposit(&mut e, "nft2", "bob", "tok2", intake_msg("m1", "B", "alice", "bob")), Ok(false));
    e
}

fn view(match_id: &str, a: bool, b: bool, finished: bool) -> Option<MatchView> {
    Some(MatchView {
        match_id: s(match_id),
        player_a: s("alice"),
        player_b: s("bob"),
        has_deposit_a: a,
        has_deposit_b: b,
        finished,
    })
}

#[test]
fn happy_path() {
    let mut e = both_deposited();
    assert_eq!(e.get_match(s("m1")), view("m1", true, true, false));
    let r = e.claim(s("alice"), s("m1"), s("alice"), s("nft2"), s("tok2"));
    assert_eq!(
        r,
        Ok(NftTransfer {
            nft_contract_id: s("nft2"),
            receiver_id: s("alice"),
            token_id: s("tok2"),
            attached_deposit: 1,
            gas_tgas: 25,
        })
    );
    assert_eq!(e.get_match(s("m1")), view("m1", true, true, true));
}

#[test]
fn bob_wins_side_a_token() {
    let mut e = both_deposited();
    let r = e.claim(s("bob"), s("m1"), s("bob"), s("nft1"), s("tok1")).unwrap();
    assert_eq!(r.nft_contract_id, "nft1");
    assert_eq!(r.receiver_id, "bob");
    assert_eq!(r.token_id, "tok1");
}

#[test]
fn wrong_token_claim() {
    let mut e = both_deposited();
    let r = e.claim(s("alice"), s("m1"), s("alice"), s("nft1"), s("tok1"));
    assert_eq!(r, Err(EscrowError::TokenMismatch));
    assert_eq!(e.get_match(s("m1")), view("m1", true, true, false));
    let r = e.claim(s("alice"), s("m1"), s("alice"), s("nft2"), s("tok1"));
    assert_eq!(r, Err(EscrowError::TokenMismatch));
}

#[test]
fn impersonation() {
    let mut e = both_deposited();
    let r = e.claim(s("mallory"), s("m1"), s("alice"), s("nft2"), s("tok2"));
    assert_eq!(r, Err(EscrowError::UnauthorizedCaller));
    assert_eq!(e.get_match(s("m1")), view("m1", true, true, false));
}

#[test]
fn double_claim() {
    let mut e = both_deposited();
    assert!(e.claim(s("alice"), s("m1"), s("alice"), s("nft2"), s("tok2")).is_ok());
    let r = e.claim(s("alice"), s("m1"), s("alice"), s("nft2"), s("tok2"));
    assert_eq!(r, Err(EscrowError::AlreadyFinished));
    assert_eq!(e.get_match(s("m1")), view("m1", true, true, true));
    let r = e.claim(s("bob"), s("m1"), s("bob"), s("nft1"), s("tok1"));
    assert_eq!(r, Err(EscrowError::AlreadyFinished));
}

#[test]
fn players_mismatch() {
    let mut e = Escrow::new();
    assert_eq!(deposit(&mut e, "nft1", "alice", "tok1", intake_msg("m1", "A", "alice", "bob")), Ok(false));
    let r = deposit(&mut e, "nft3", "carol", "tok3", intake_msg("m1", "B", "alice", "carol"));
    assert_eq!(r, Err(EscrowError::MatchPlayersMismatch));
    assert_eq!(e.get_match(s("m1")), view("m1", true, false, false));
    let r = deposit(&mut e, "nft3", "bob", "tok3", intake_msg("m1", "B", "bob", "alice"));
    assert_eq!(r, Err(EscrowError::MatchPlayersMismatch));
}

#[test]
fn duplicate_side() {
    let mut e = Escrow::new();
    assert_eq!(deposit(&mut e, "nft1", "alice", "tok1", intake_msg("m1", "A", "alice", "bob")), Ok(false));
    let r = deposit(&mut e, "nft9", "alice", "tok9", intake_msg("m1", "A", "alice", "bob"));
    assert_eq!(r, Err(EscrowError::SideOccupied));
    assert_eq!(e.get_match(s("m1")), view("m1", true, false, false));
}

#[test]
fn second_intake_same_side_b() {
    let mut e = Escrow::new();
    assert_eq!(deposit(&mut e, "nft2", "bob", "tok2", intake_msg("m1", "B", "alice", "bob")), Ok(false));
    assert_eq!(e.get_match(s("m1")), view("m1", false, true, false));
    let r = deposit(&mut e, "nft2", "bob", "tok5", intake_msg("m1", "B", "alice", "bob"));
    assert_eq!(r, Err(EscrowError::SideOccupied));
}

#[test]
fn invalid_side() {
    let mut e = Escrow::new();
    for side in ["C", "a", "", "AB"] {
        let r = deposit(&mut e, "nft1", "alice", "tok1", intake_msg("m1", side, "alice", "bob"));
        assert_eq!(r, Err(EscrowError::InvalidSide));
    }
    assert_eq!(e.get_match(s("m1")), None);
}

#[test]
fn players_equal() {
    let mut e = Escrow::new();
    let r = deposit(&mut e, "nft1", "alice", "tok1", intake_msg("m1", "A", "alice", "alice"));
    assert_eq!(r, Err(EscrowError::PlayersEqual));
    assert_eq!(e.get_match(s("m1")), None);
}

#[test]
fn claim_before_second_deposit() {
    let mut e = Escrow::new();
    assert_eq!(deposit(&mut e, "nft1", "alice", "tok1", intake_msg("m1", "A", "alice", "bob")), Ok(false));
    let r = e.claim(s("bob"), s("m1"), s("bob"), s("nft1"), s("tok1"));
    assert_eq!(r, Err(EscrowError::DepositMissing));
    assert_eq!(e.get_match(s("m1")), view("m1", true, false, false));
}

#[test]
fn claim_unknown_match() {
    let mut e = both_deposited();
    let r = e.claim(s("alice"), s("m2"), s("alice"), s("nft2"), s("tok2"));
    assert_eq!(r, Err(EscrowError::MatchNotFound));
}

#[test]
fn claim_by_outsider() {
    let mut e = both_deposited();
    let r = e.claim(s("carol"), s("m1"), s("carol"), s("nft2"), s("tok2"));
    assert_eq!(r, Err(EscrowError::NotAPlayer));
}

#[test]
fn intake_after_finish() {
    let mut e = both_deposited();
    assert!(e.claim(s("alice"), s("m1"), s("alice"), s("nft2"), s("tok2")).is_ok());
    let r = deposit(&mut e, "nft4", "alice", "tok4", intake_msg("m1", "A", "alice", "bob"));
    assert_eq!(r, Err(EscrowError::AlreadyFinished));
}

#[test]
fn deposit_records_calling_contract() {
    let mut e = Escrow::new();
    assert_eq!(deposit(&mut e, "nft1", "alice", "tok1", intake_msg("m1", "A", "alice", "bob")), Ok(false));
    assert_eq!(deposit(&mut e, "real.nft", "bob", "tok2", intake_msg("m1", "B", "alice", "bob")), Ok(false));
    let r = e.claim(s("alice"), s("m1"), s("alice"), s("fake.nft"), s("tok2"));
    assert_eq!(r, Err(EscrowError::TokenMismatch));
    let r = e.claim(s("alice"), s("m1"), s("alice"), s("real.nft"), s("tok2"));
    assert_eq!(r.unwrap().nft_contract_id, "real.nft");
}

#[test]
fn refused_calls_repeat_and_change_nothing() {
    let mut e = Escrow::new();
    assert_eq!(deposit(&mut e, "nft1", "alice", "tok1", intake_msg("m1", "A", "alice", "bob")), Ok(false));
    let before = e.get_match(s("m1"));
    for _ in 0..2 {
        let r = e.claim(s("alice"), s("m1"), s("alice"), s("nft2"), s("tok2"));
        assert_eq!(r, Err(EscrowError::DepositMissing));
        let r = deposit(&mut e, "nft1", "alice", "tok1", intake_msg("m1", "A", "alice", "bob"));
        assert_eq!(r, Err(EscrowError::SideOccupied));
        assert_eq!(e.get_match(s("m1")), before);
    }
}

#[test]
fn get_match_is_stable() {
    let e = both_deposited();
    assert_eq!(e.get_match(s("m1")), e.get_match(s("m1")));
    assert_eq!(e.get_match(s("nope")), None);
}

#[test]
fn separate_matches_are_independent() {
    let mut e = both_deposited();
    assert_eq!(deposit(&mut e, "nft5", "carol", "tok5", intake_msg("m2", "A", "carol", "dave")), Ok(false));
    assert!(e.claim(s("alice"), s("m1"), s("alice"), s("nft2"), s("tok2")).is_ok());
    let v = e.get_match(s("m2")).unwrap();
    assert_eq!(v.player_a, "carol");
    assert!(v.has_deposit_a && !v.has_deposit_b && !v.finished);
}

#[test]
fn restore_and_read_back_state() {
    let mut st = MatchState {
        player_a: s("alice"),
        player_b: s("bob"),
        deposit_a: Some(Deposit {
            nft_contract_id: s("nft1"),
            token_id: s("tok1"),
            original_owner_id: s("alice"),
            deposited_by: s("alice"),
        }),
        deposit_b: None,
        finished: false,
    };
    let mut e = Escrow::new();
    assert_eq!(e.restore(s("m1"), st.clone()), Ok(()));
    assert_eq!(e.match_state(&s("m1")), Some(st.clone()));
    assert_eq!(e.get_match(s("m1")), view("m1", true, false, false));
    assert_eq!(deposit(&mut e, "nft2", "bob", "tok2", intake_msg("m1", "B", "alice", "bob")), Ok(false));
    assert!(e.match_state(&s("m1")).unwrap().deposit_b.is_some());
    st.player_b = s("alice");
    assert_eq!(e.restore(s("m9"), st), Err(EscrowError::PlayersEqual));
    assert_eq!(e.match_state(&s("m9")), None);
}
