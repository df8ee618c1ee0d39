use vstd::prelude::*;
use vstd::string::*;
use crate::account::{account_id_is_valid, valid_account_id};
use crate::escrow::EscrowError;

verus! {

/// The object that a JSON text denotes when it is an object whose values are
/// all strings; `None` for any other text.
pub uninterp spec fn json_string_object(s: Seq<char>) -> Option<Map<Seq<char>, Seq<char>>>;

/// The intake message that an NFT contract forwards with a transfer.
#[derive(Clone, Debug, PartialEq, Eq)]
pub struct TransferCallMsg {
    pub match_id: String,
    /// `"A"` or `"B"`.
    pub side: String,
    pub player_a: String,
    pub player_b: String,
}

pub struct MsgModel {
    pub match_id: Seq<char>,
    pub side: Seq<char>,
    pub player_a: Seq<char>,
    pub player_b: Seq<char>,
}

impl View for TransferCallMsg {
    type V = MsgModel;

    open spec fn view(&self) -> MsgModel {
        MsgModel {
            match_id: self.match_id@,
            side: self.side@,
            player_a: self.player_a@,
            player_b: self.player_b@,
        }
    }
}

pub open spec fn keys_distinct(v: Seq<(String, String)>) -> bool {
    forall|i: int, j: int| 0 <= i < j < v.len() ==> #[trigger] v[i].0@ != #[trigger] v[j].0@
}

pub open spec fn has_key(v: Seq<(String, String)>, k: Seq<char>) -> bool {
    exists|i: int| 0 <= i < v.len() && #[trigger] v[i].0@ == k
}

/// The object that a list of fields spells out.
pub open spec fn field_map(v: Seq<(String, String)>) -> Map<Seq<char>, Seq<char>> {
    Map::new(
        |k: Seq<char>| has_key(v, k),
        |k: Seq<char>| v[choose|i: int| 0 <= i < v.len() && #[trigger] v[i].0@ == k].1@,
    )
}

pub open spec fn msg_keys() -> Set<Seq<char>> {
    set!["match_id"@, "side"@, "player_a"@, "player_b"@]
}

/// The message an object holds: exactly the four fields, with well-formed
/// account ids for both players; any other object is a bad message.
pub open spec fn msg_from_object(m: Map<Seq<char>, Seq<char>>) -> Result<MsgModel, EscrowError> {
    if m.dom() == msg_keys() && valid_account_id(m["player_a"@]) && valid_account_id(
        m["player_b"@],
    ) {
        Ok(
            MsgModel {
                match_id: m["match_id"@],
                side: m["side"@],
                player_a: m["player_a"@],
                player_b: m["player_b"@],
            },
        )
    } else {
        Err(EscrowError::BadMessage)
    }
}

/// The message that a JSON text holds.
pub open spec fn msg_from_json(s: Seq<char>) -> Result<MsgModel, EscrowError> {
    match json_string_object(s) {
        Some(m) => msg_from_object(m),
        None => Err(EscrowError::BadMessage),
    }
}

pub open spec fn msg_result_model(r: Result<TransferCallMsg, EscrowError>) -> Result<MsgModel, EscrowError> {
    match r {
        Ok(m) => Ok(m@),
        Err(e) => Err(e),
    }
}

/// Relies on serde_json::from_str (as near_sdk::serde_json) into a
/// `HashMap<String, String>`: it succeeds exactly on a JSON object whose values
/// are all strings, and the map's entries, listed once each, spell out that object.
#[verifier::external_body]
fn json_string_fields(s: &str) -> (r: Option<Vec<(String, String)>>)
    ensures
        match r {
            Some(v) => keys_distinct(v@) && json_string_object(s@) == Some(field_map(v@)),
            None => json_string_object(s@) is None,
        },
{
    near_sdk::serde_json::from_str::<std::collections::HashMap<String, String>>(s).ok().map(
        |m| m.into_iter().collect(),
    )
}

fn find_field(fields: &Vec<(String, String)>, key: &str) -> (r: Option<usize>)
    ensures
        match r {
            Some(i) => i < fields@.len() && fields@[i as int].0@ == key@,
            None => !has_key(fields@, key@),
        },
{
    let k = key.to_owned();
    let mut i: usize = 0;
    while i < fields.len()
        invariant
            k@ == key@,
            i <= fields@.len(),
            forall|j: int| 0 <= j < i ==> #[trigger] fields@[j].0@ != key@,
        decreases fields@.len() - i,
    {
        if fields[i].0 == k {
            return Some(i);
        }
        i = i + 1;
    }
    None
}

fn fields_distinct(fields: &Vec<(String, String)>) -> (r: bool)
    ensures
        r == keys_distinct(fields@),
{
    let mut i: usize = 0;
    while i < fields.len()
        invariant
            i <= fields@.len(),
            forall|a: int, b: int| 0 <= a < i && a < b < fields@.len() ==> #[trigger] fields@[a].0@
                != #[trigger] fields@[b].0@,
        decreases fields@.len() - i,
    {
        let mut j: usize = i + 1;
        while j < fields.len()
            invariant
                i < fields@.len(),
                i + 1 <= j <= fields@.len(),
                forall|a: int, b: int| 0 <= a < i && a < b < fields@.len() ==> #[trigger] fields@[a].0@
                    != #[trigger] fields@[b].0@,
                forall|b: int| i < b < j ==> fields@[i as int].0@ != #[trigger] fields@[b].0@,
            decreases fields@.len() - j,
        {
            if fields[i].0 == fields[j].0 {
                return false;
            }
            j = j + 1;
        }
        i = i + 1;
    }
    true
}

fn all_keys_known(fields: &Vec<(String, String)>) -> (r: bool)
    ensures
        r == forall|i: int| 0 <= i < fields@.len() ==> msg_keys().contains(#[trigger] fields@[i].0@),
{
    let k1 = "match_id".to_owned();
    let k2 = "side".to_owned();
    let k3 = "player_a".to_owned();
    let k4 = "player_b".to_owned();
    let mut i: usize = 0;
    while i < fields.len()
        invariant
            k1@ == "match_id"@,
            k2@ == "side"@,
            k3@ == "player_a"@,
            k4@ == "player_b"@,
            i <= fields@.len(),
            forall|j: int| 0 <= j < i ==> msg_keys().contains(#[trigger] fields@[j].0@),
        decreases fields@.len() - i,
    {
        let k = &fields[i].0;
        if !(*k == k1 || *k == k2 || *k == k3 || *k == k4) {
            assert(!msg_keys().contains(fields@[i as int].0@));
            return false;
        }
        i = i + 1;
    }
    true
}

proof fn lemma_field_value(v: Seq<(String, String)>, i: int)
    requires
        keys_distinct(v),
        0 <= i < v.len(),
    ensures
        field_map(v).contains_key(v[i].0@),
        field_map(v)[v[i].0@] == v[i].1@,
{
    assert(has_key(v, v[i].0@));
    let j = choose|j: int| 0 <= j < v.len() && #[trigger] v[j].0@ == v[i].0@;
    assert(i == j) by {
        if i < j {
            assert(v[i].0@ != v[j].0@);
        } else if j < i {
            assert(v[j].0@ != v[i].0@);
        }
    }
}

/// Reads an intake message out of the fields of a JSON object: the fields must
/// name each of `match_id`, `side`, `player_a` and `player_b` once, and nothing
/// else, and both players must be well-formed account ids.
pub fn transfer_msg_from_fields(fields: &Vec<(String, String)>) -> (r: Result<TransferCallMsg, EscrowError>)
    ensures
        msg_result_model(r) == if keys_distinct(fields@) {
            msg_from_object(field_map(fields@))
        } else {
            Err(EscrowError::BadMessage)
        },
{
    if !fields_distinct(fields) {
        return Err(EscrowError::BadMessage);
    }
    let ghost m = field_map(fields@);
    let known = all_keys_known(fields);
    let im = find_field(fields, "match_id");
    let is = find_field(fields, "side");
    let ia = find_field(fields, "player_a");
    let ib = find_field(fields, "player_b");
    if !known || im.is_none() || is.is_none() || ia.is_none() || ib.is_none() {
        proof {
            if known {
                assert(im is None || is is None || ia is None || ib is None);
                if im is None {
                    assert(!m.dom().contains("match_id"@));
                    assert(msg_keys().contains("match_id"@));
                } else if is is None {
                    assert(!m.dom().contains("side"@));
                    assert(msg_keys().contains("side"@));
                } else if ia is None {
                    assert(!m.dom().contains("player_a"@));
                    assert(msg_keys().contains("player_a"@));
                } else {
                    assert(!m.dom().contains("player_b"@));
                    assert(msg_keys().contains("player_b"@));
                }
            } else {
                let i = choose|i: int| 0 <= i < fields@.len() && !msg_keys().contains(#[trigger] fields@[i].0@);
                assert(has_key(fields@, fields@[i].0@));
                assert(m.dom().contains(fields@[i].0@));
            }
            assert(m.dom() != msg_keys());
        }
        return Err(EscrowError::BadMessage);
    }
    let im = im.unwrap();
    let is = is.unwrap();
    let ia = ia.unwrap();
    let ib = ib.unwrap();
    proof {
        lemma_field_value(fields@, im as int);
        lemma_field_value(fields@, is as int);
        lemma_field_value(fields@, ia as int);
        lemma_field_value(fields@, ib as int);
        assert forall|k: Seq<char>| #[trigger] m.dom().contains(k) == msg_keys().contains(k) by {
            if m.dom().contains(k) {
                let i = choose|i: int| 0 <= i < fields@.len() && #[trigger] fields@[i].0@ == k;
            }
            if msg_keys().contains(k) {
                assert(k == "match_id"@ || k == "side"@ || k == "player_a"@ || k == "player_b"@);
            }
        }
        assert(m.dom() =~= msg_keys());
    }
    if !account_id_is_valid(fields[ia].1.as_str()) || !account_id_is_valid(fields[ib].1.as_str()) {
        return Err(EscrowError::BadMessage);
    }
    Ok(
        TransferCallMsg {
            match_id: fields[im].1.clone(),
            side: fields[is].1.clone(),
            player_a: fields[ia].1.clone(),
            player_b: fields[ib].1.clone(),
        },
    )
}

/// Parses an intake message from its JSON text.
pub fn parse_transfer_msg(msg: &str) -> (r: Result<TransferCallMsg, EscrowError>)
    ensures
        msg_result_model(r) == msg_from_json(msg@),
{
    match json_string_fields(msg) {
        Some(fields) => transfer_msg_from_fields(&fields),
        None => Err(EscrowError::BadMessage),
    }
}

} // verus!
