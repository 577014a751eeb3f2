//! Turning what the marketplace owes into the chain messages that pay it.
use vstd::prelude::*;

use crate::types::{Asset, BankMsg, Coin, CosmosMsg, Payment, Response, SubMsg, WasmMsg};

verus! {

/// The JSON bytes of a cw20 `Transfer { recipient, amount }` message.
pub uninterp spec fn cw20_transfer_json(recipient: Seq<char>, amount: u128) -> Seq<u8>;

/// The JSON bytes of a cw721 `TransferNft { recipient, token_id }` message.
pub uninterp spec fn cw721_transfer_json(recipient: Seq<char>, token_id: Seq<char>) -> Seq<u8>;

/// Serializes `cw20::Cw20ExecuteMsg::Transfer` with `cosmwasm_std::to_json_vec`.
/// The result is named `cw20_transfer_json` of the recipient and the amount.
/// The serializer (serde-json-wasm) fails only on map keys that are not
/// strings and on custom serializer errors; this message has neither, so the
/// call returns.
#[verifier::external_body]
fn cw20_transfer_bytes(recipient: &String, amount: u128) -> (r: Vec<u8>)
    ensures
        r@ == cw20_transfer_json(recipient@, amount),
{
    let msg = cw20::Cw20ExecuteMsg::Transfer {
        recipient: recipient.clone(),
        amount: cosmwasm_std::Uint128::new(amount),
    };
    cosmwasm_std::to_json_vec(&msg).unwrap()
}

/// Serializes `cw721::Cw721ExecuteMsg::TransferNft` with
/// `cosmwasm_std::to_json_vec`. The result is named `cw721_transfer_json` of
/// the recipient and the token id. As for the cw20 transfer, the message
/// holds no map, so serializing it does not fail.
#[verifier::external_body]
fn cw721_transfer_bytes(recipient: &String, token_id: &String) -> (r: Vec<u8>)
    ensures
        r@ == cw721_transfer_json(recipient@, token_id@),
{
    let msg = cw721::Cw721ExecuteMsg::TransferNft {
        recipient: recipient.clone(),
        token_id: token_id.clone(),
    };
    cosmwasm_std::to_json_vec(&msg).unwrap()
}

/// A chain message with its byte and coin vectors seen as sequences.
pub enum MsgView {
    Bank { to_address: String, amount: Seq<Coin> },
    Wasm { contract_addr: String, msg: Seq<u8>, funds: Seq<Coin> },
}

impl View for CosmosMsg {
    type V = MsgView;

    open spec fn view(&self) -> MsgView {
        match self {
            CosmosMsg::Bank(BankMsg::Send { to_address, amount }) => MsgView::Bank {
                to_address: *to_address,
                amount: amount@,
            },
            CosmosMsg::Wasm(WasmMsg::Execute { contract_addr, msg, funds }) => MsgView::Wasm {
                contract_addr: *contract_addr,
                msg: msg@,
                funds: funds@,
            },
        }
    }
}

/// The message that pays `p`: a bank send for a native coin, a cw20
/// transfer for a token, a cw721 transfer for an NFT.
pub open spec fn payment_msg(p: Payment) -> MsgView {
    match p {
        Payment::Funds { recipient, asset, token_address } => match token_address {
            None => MsgView::Bank {
                to_address: recipient,
                amount: seq![Coin { denom: asset.denom, amount: asset.amount }],
            },
            Some(addr) => MsgView::Wasm {
                contract_addr: addr,
                msg: cw20_transfer_json(recipient@, asset.amount),
                funds: Seq::empty(),
            },
        },
        Payment::Nft { collection, recipient, token_id } => MsgView::Wasm {
            contract_addr: collection,
            msg: cw721_transfer_json(recipient@, token_id@),
            funds: Seq::empty(),
        },
    }
}

/// The messages of a response, in order.
pub open spec fn response_msgs(r: Response) -> Seq<MsgView> {
    r.messages@.map_values(|m: SubMsg| m.msg@)
}

/// Whether a payment moves anything: a token, or a non-zero amount. The
/// chain refuses transfers of zero coins or tokens, so those are not sent.
pub open spec fn moves_something(p: Payment) -> bool {
    match p {
        Payment::Funds { asset, .. } => asset.amount > 0,
        Payment::Nft { .. } => true,
    }
}

/// The messages that pay each of `payments` that moves something, in order.
pub open spec fn payment_msgs(payments: Seq<Payment>) -> Seq<MsgView> {
    payments.filter(|p: Payment| moves_something(p)).map_values(|p: Payment| payment_msg(p))
}

/// A copy of an optional address.
pub fn clone_address(a: &Option<String>) -> (r: Option<String>)
    ensures
        r == *a,
{
    match a {
        Some(s) => Some(s.clone()),
        None => None,
    }
}

impl Asset {
    /// A copy of this amount.
    pub fn duplicate(&self) -> (r: Asset)
        ensures
            r == *self,
    {
        Asset { denom: self.denom.clone(), amount: self.amount }
    }
}

/// The message that pays `p`.
pub fn payment_to_msg(p: &Payment) -> (m: CosmosMsg)
    ensures
        m@ == payment_msg(*p),
{
    match p {
        Payment::Funds { recipient, asset, token_address } => match token_address {
            None => {
                let mut coins: Vec<Coin> = Vec::new();
                coins.push(Coin { denom: asset.denom.clone(), amount: asset.amount });
                proof {
                    assert(coins@ =~= seq![Coin { denom: asset.denom, amount: asset.amount }]);
                }
                CosmosMsg::Bank(BankMsg::Send { to_address: recipient.clone(), amount: coins })
            },
            Some(addr) => {
                let msg = cw20_transfer_bytes(recipient, asset.amount);
                let funds: Vec<Coin> = Vec::new();
                proof {
                    assert(funds@ =~= Seq::<Coin>::empty());
                }
                CosmosMsg::Wasm(WasmMsg::Execute { contract_addr: addr.clone(), msg, funds })
            },
        },
        Payment::Nft { collection, recipient, token_id } => {
            let msg = cw721_transfer_bytes(recipient, token_id);
            let funds: Vec<Coin> = Vec::new();
            proof {
                assert(funds@ =~= Seq::<Coin>::empty());
            }
            CosmosMsg::Wasm(WasmMsg::Execute { contract_addr: collection.clone(), msg, funds })
        },
    }
}

/// The response that pays each of `payments` that moves something, in order.
pub fn payments_to_response(payments: &Vec<Payment>) -> (r: Response)
    ensures
        response_msgs(r) == payment_msgs(payments@),
{
    let ghost keep = |p: Payment| moves_something(p);
    let mut messages: Vec<SubMsg> = Vec::new();
    let n = payments.len();
    assert(payments@.take(0) =~= Seq::<Payment>::empty());
    for i in 0..n
        invariant
            n == payments@.len(),
            keep == (|p: Payment| moves_something(p)),
            messages@.map_values(|m: SubMsg| m.msg@) == payments@.take(i as int).filter(keep).map_values(
                |p: Payment| payment_msg(p),
            ),
    {
        let ghost before = messages@;
        let ghost t = payments@.take(i + 1);
        proof {
            assert(t.drop_last() =~= payments@.take(i as int));
            assert(t.last() == payments@[i as int]);
            reveal_with_fuel(Seq::filter, 1);
        }
        let p = &payments[i];
        let moves = match p {
            Payment::Funds { asset, .. } => asset.amount > 0,
            Payment::Nft { .. } => true,
        };
        if moves {
            let m = payment_to_msg(p);
            messages.push(SubMsg { msg: m });
            assert(messages@.map_values(|m: SubMsg| m.msg@) =~= before.map_values(|m: SubMsg| m.msg@).push(payment_msg(*p)));
        } else {
            assert(messages@ == before);
        }
        assert(messages@.map_values(|m: SubMsg| m.msg@) =~= t.filter(keep).map_values(|p: Payment| payment_msg(p)));
    }
    assert(payments@.take(n as int) =~= payments@);
    let r = Response { messages };
    r
}

} // verus!
