use cosmwasm_std::{to_binary, Uint128};
use cw20::Cw20ExecuteMsg;
use cw721::Cw721ExecuteMsg;

use marketplace::decimal::Decimal;
use marketplace::market::{instantiate, Market};
use marketplace::types::{
    Asset, BankMsg, BuyNft, Coin, CollectionOffset, ContractError, CosmosMsg, Cw20ReceiveMsg,
    Cw721ReceiveMsg, ExecuteMsg, InstantiateMsg, MessageInfo, Response, SaleType, SellNft,
    TvlInfo, UserInfo, WasmMsg,
};

const NOW: u64 = 1_571_797_419;

fn info(sender: &str, funds: &[Coin]) -> MessageInfo {
    MessageInfo { sender: sender.to_string(), funds: funds.to_vec() }
}

fn run(m: &mut Market, sender: &str, funds: &[Coin], msg: ExecuteMsg) -> Result<Response, ContractError> {
    m.execute(NOW, &info(sender, funds), msg)
}

fn coin(denom: &str, amount: u128) -> Coin {
    Coin { denom: denom.to_string(), amount }
}

fn bank_send(to: &str, denom: &str, amount: u128) -> CosmosMsg {
    CosmosMsg::Bank(BankMsg::Send { to_address: to.to_string(), amount: vec![coin(denom, amount)] })
}

fn cw20_transfer(contract: &str, recipient: &str, amount: u128) -> CosmosMsg {
    CosmosMsg::Wasm(WasmMsg::Execute {
        contract_addr: contract.to_string(),
        msg: to_binary(&Cw20ExecuteMsg::Transfer { recipient: recipient.to_string(), amount: Uint128::new(amount) })
            .unwrap()
            .to_vec(),
        funds: vec![],
    })
}

fn nft_transfer(contract: &str, recipient: &str, token_id: &str) -> CosmosMsg {
    CosmosMsg::Wasm(WasmMsg::Execute {
        contract_addr: contract.to_string(),
        msg: to_binary(&Cw721ExecuteMsg::TransferNft { recipient: recipient.to_string(), token_id: token_id.to_string() })
            .unwrap()
            .to_vec(),
        funds: vec![],
    })
}

fn members() -> Vec<UserInfo> {
    vec![
        UserInfo { address: "admin1".to_string(), portion: Decimal::from_ratio(7u128, 10u128) },
        UserInfo { address: "admin2".to_string(), portion: Decimal::from_ratio(3u128, 10u128) },
    ]
}

fn market() -> Market {
    let (mut m, _) = instantiate(InstantiateMsg { owner: "owner".to_string(), admin: "admin".to_string() });
    run(&mut m, "owner", &[], ExecuteMsg::AddCollection {
        royalty_portion: Decimal::from_ratio(1u128, 10u128),
        nft_address: "collection1".to_string(),
        members: members(),
    })
    .unwrap();
    run(&mut m, "owner", &[], ExecuteMsg::AddCoin { symbol: "ujuno".to_string() }).unwrap();
    run(&mut m, "owner", &[], ExecuteMsg::AddTokenAddress { symbol: "hope".to_string(), address: "hope_address".to_string() })
        .unwrap();
    m
}

fn list(m: &mut Market, token_id: &str, denom: &str, amount: u128, token: Option<&str>) -> Result<Response, ContractError> {
    run(m, "collection1", &[], ExecuteMsg::ReceiveNft(Cw721ReceiveMsg {
        sender: "seller1".to_string(),
        token_id: token_id.to_string(),
        msg: SellNft {
            list_price: Asset { denom: denom.to_string(), amount },
            expire: NOW + 300,
            token_address: token.map(|t| t.to_string()),
        },
    }))
}

fn coin_bid(m: &mut Market, bidder: &str, token_id: Option<&str>, sale_type: SaleType, amount: u128) -> Result<Response, ContractError> {
    run(m, bidder, &[coin("ujuno", amount)], ExecuteMsg::SetBidCoin {
        nft_address: "collection1".to_string(),
        expire: NOW + 300,
        sale_type,
        token_id: token_id.map(|t| t.to_string()),
        list_price: Asset { denom: "ujuno".to_string(), amount },
    })
}

fn token_bid(m: &mut Market, bidder: &str, token_id: Option<&str>, sale_type: SaleType, amount: u128) -> Result<Response, ContractError> {
    run(m, "hope_address", &[], ExecuteMsg::Receive(Cw20ReceiveMsg {
        sender: bidder.to_string(),
        amount,
        msg: BuyNft {
            nft_address: "collection1".to_string(),
            expire: NOW + 300,
            sale_type,
            token_id: token_id.map(|t| t.to_string()),
        },
    }))
}

#[test]
fn decimal_from_ratio_counts_atomics() {
    assert_eq!(Decimal::from_ratio(1u128, 10u128).atomics, 100_000_000_000_000_000u128);
    assert_eq!(Decimal::checked_from_ratio(1u128, 0u128), None);
    assert_eq!(Decimal::checked_from_ratio(u128::MAX, 1u128), None);
    assert_eq!(Decimal::one().atomics, 1_000_000_000_000_000_000u128);
}

#[test]
fn decimal_mul_floor_rounds_down() {
    let d = Decimal::from_ratio(7u128, 10u128);
    assert_eq!(d.checked_mul_floor(99), Some(69));
    assert_eq!(Decimal::one().checked_mul_floor(u128::MAX), Some(u128::MAX));
    assert_eq!(Decimal::raw(2_000_000_000_000_000_000u128).checked_mul_floor(u128::MAX), None);
}

#[test]
fn managers_only_change_settings() {
    let mut m = market();
    let r = run(&mut m, "stranger", &[], ExecuteMsg::AddCoin { symbol: "uatom".to_string() });
    assert_eq!(r, Err(ContractError::Unauthorized));
    let r = run(&mut m, "admin", &[], ExecuteMsg::AddCoin { symbol: "uatom".to_string() });
    assert_eq!(r.unwrap().messages.len(), 0);
}

#[test]
fn royalty_rule_must_fit_the_price() {
    let mut m = market();
    let r = run(&mut m, "owner", &[], ExecuteMsg::AddCollection {
        royalty_portion: Decimal::from_ratio(11u128, 10u128),
        nft_address: "collection3".to_string(),
        members: members(),
    });
    assert_eq!(r, Err(ContractError::InvalidPortion));
    let r = run(&mut m, "owner", &[], ExecuteMsg::AddCollection {
        royalty_portion: Decimal::from_ratio(1u128, 10u128),
        nft_address: "collection3".to_string(),
        members: vec![
            UserInfo { address: "a".to_string(), portion: Decimal::from_ratio(8u128, 10u128) },
            UserInfo { address: "b".to_string(), portion: Decimal::from_ratio(3u128, 10u128) },
        ],
    });
    assert_eq!(r, Err(ContractError::InvalidPortion));
}

#[test]
fn listing_rules() {
    let mut m = market();
    let r = run(&mut m, "collection9", &[], ExecuteMsg::ReceiveNft(Cw721ReceiveMsg {
        sender: "seller1".to_string(),
        token_id: "T.1".to_string(),
        msg: SellNft { list_price: Asset { denom: "ujuno".to_string(), amount: 5 }, expire: NOW + 1, token_address: None },
    }));
    assert_eq!(r, Err(ContractError::CollectionNotFound));
    let r = run(&mut m, "collection1", &[], ExecuteMsg::ReceiveNft(Cw721ReceiveMsg {
        sender: "seller1".to_string(),
        token_id: "T.1".to_string(),
        msg: SellNft { list_price: Asset { denom: "ujuno".to_string(), amount: 5 }, expire: NOW, token_address: None },
    }));
    assert_eq!(r, Err(ContractError::InvalidExpiration));
    assert_eq!(list(&mut m, "T.1", "uatom", 5, None), Err(ContractError::UnknownCurrency));
    assert_eq!(list(&mut m, "T.1", "ujuno", 5, Some("hope_address")), Err(ContractError::UnknownCurrency));
    assert_eq!(list(&mut m, "T.1", "hope", 5, None), Err(ContractError::UnknownCurrency));
    assert!(list(&mut m, "T.1", "hope", 5, Some("hope_address")).is_ok());
    assert_eq!(list(&mut m, "T.1", "ujuno", 5, None), Err(ContractError::AskExists));
    assert_eq!(m.query_ask_count("collection1".to_string()), 1);
}

#[test]
fn bidding_rules() {
    let mut m = market();
    assert_eq!(coin_bid(&mut m, "b1", Some("T.1"), SaleType::Auction, 10), Err(ContractError::AskNotFound));
    list(&mut m, "T.1", "ujuno", 100, None).unwrap();
    assert_eq!(coin_bid(&mut m, "b1", None, SaleType::Auction, 10), Err(ContractError::TokenIdRequired));
    assert!(coin_bid(&mut m, "b1", Some("T.1"), SaleType::Auction, 10).is_ok());
    assert_eq!(coin_bid(&mut m, "b1", Some("T.1"), SaleType::Auction, 20), Err(ContractError::BidExists));
    assert_eq!(coin_bid(&mut m, "b2", Some("T.1"), SaleType::FixedPrice, 99), Err(ContractError::PriceMismatch));
    let r = run(&mut m, "b3", &[coin("ujuno", 9)], ExecuteMsg::SetBidCoin {
        nft_address: "collection1".to_string(),
        expire: NOW + 300,
        sale_type: SaleType::Auction,
        token_id: Some("T.1".to_string()),
        list_price: Asset { denom: "ujuno".to_string(), amount: 10 },
    });
    assert_eq!(r, Err(ContractError::InvalidFunds));
    let r = run(&mut m, "other_token", &[], ExecuteMsg::Receive(Cw20ReceiveMsg {
        sender: "b4".to_string(),
        amount: 10,
        msg: BuyNft { nft_address: "collection1".to_string(), expire: NOW + 300, sale_type: SaleType::Auction, token_id: Some("T.1".to_string()) },
    }));
    assert_eq!(r, Err(ContractError::UnknownCurrency));
    let late = m.execute(NOW + 400, &info("b5", &[coin("ujuno", 10)]), ExecuteMsg::SetBidCoin {
        nft_address: "collection1".to_string(),
        expire: NOW + 500,
        sale_type: SaleType::Auction,
        token_id: Some("T.1".to_string()),
        list_price: Asset { denom: "ujuno".to_string(), amount: 10 },
    });
    assert_eq!(late, Err(ContractError::AskExpired));
    assert_eq!(m.query_bids("collection1".to_string(), "T.1".to_string(), None, None).len(), 1);
}

#[test]
fn only_the_seller_disposes_of_a_token() {
    let mut m = market();
    list(&mut m, "T.1", "ujuno", 100, None).unwrap();
    coin_bid(&mut m, "b1", Some("T.1"), SaleType::Auction, 10).unwrap();
    let w = ExecuteMsg::WithdrawNft { nft_address: "collection1".to_string(), token_id: "T.1".to_string() };
    assert_eq!(run(&mut m, "b1", &[], w), Err(ContractError::Unauthorized));
    let a = ExecuteMsg::AcceptBid { nft_address: "collection1".to_string(), token_id: "T.1".to_string(), bidder: "b1".to_string() };
    assert_eq!(run(&mut m, "b1", &[], a), Err(ContractError::Unauthorized));
    let a = ExecuteMsg::AcceptBid { nft_address: "collection1".to_string(), token_id: "T.1".to_string(), bidder: "b9".to_string() };
    assert_eq!(run(&mut m, "seller1", &[], a), Err(ContractError::BidNotFound));
    let w = ExecuteMsg::WithdrawNft { nft_address: "collection1".to_string(), token_id: "T.9".to_string() };
    assert_eq!(run(&mut m, "seller1", &[], w), Err(ContractError::AskNotFound));
}

#[test]
fn expired_bid_cannot_be_accepted() {
    let mut m = market();
    list(&mut m, "T.1", "ujuno", 100, None).unwrap();
    coin_bid(&mut m, "b1", Some("T.1"), SaleType::Auction, 10).unwrap();
    let a = ExecuteMsg::AcceptBid { nft_address: "collection1".to_string(), token_id: "T.1".to_string(), bidder: "b1".to_string() };
    assert_eq!(m.execute(NOW + 300, &info("seller1", &[]), a), Err(ContractError::BidExpired));
}

#[test]
fn removing_a_bid_refunds_it_and_leaves_no_trace() {
    let mut m = market();
    list(&mut m, "T.1", "ujuno", 100, None).unwrap();
    token_bid(&mut m, "b1", Some("T.1"), SaleType::Auction, 40).unwrap();
    let r = run(&mut m, "b1", &[], ExecuteMsg::RemoveBid { nft_address: "collection1".to_string(), token_id: "T.1".to_string() })
        .unwrap();
    assert_eq!(r.messages.len(), 1);
    assert_eq!(r.messages[0].msg, cw20_transfer("hope_address", "b1", 40));
    assert!(m.query_bids("collection1".to_string(), "T.1".to_string(), None, None).is_empty());
    let again = run(&mut m, "b1", &[], ExecuteMsg::RemoveBid { nft_address: "collection1".to_string(), token_id: "T.1".to_string() });
    assert_eq!(again, Err(ContractError::BidNotFound));
}

#[test]
fn removing_a_collection_bid_refunds_it() {
    let mut m = market();
    coin_bid(&mut m, "cb1", None, SaleType::CollectionBid, 70).unwrap();
    assert_eq!(coin_bid(&mut m, "cb1", None, SaleType::CollectionBid, 70), Err(ContractError::BidExists));
    assert!(m.query_collection_bid("collection1".to_string(), "cb1".to_string()).is_some());
    let r = run(&mut m, "cb1", &[], ExecuteMsg::RemoveCollectionBid { nft_address: "collection1".to_string() }).unwrap();
    assert_eq!(r.messages[0].msg, bank_send("cb1", "ujuno", 70));
    assert!(m.query_collection_bid("collection1".to_string(), "cb1".to_string()).is_none());
}

#[test]
fn sale_pays_exactly_the_price_with_rounding() {
    let mut m = market();
    list(&mut m, "T.1", "ujuno", 999, None).unwrap();
    let r = coin_bid(&mut m, "buyer", Some("T.1"), SaleType::FixedPrice, 999).unwrap();
    assert_eq!(r.messages.len(), 4);
    assert_eq!(r.messages[0].msg, bank_send("admin1", "ujuno", 69));
    assert_eq!(r.messages[1].msg, bank_send("admin2", "ujuno", 29));
    assert_eq!(r.messages[2].msg, bank_send("seller1", "ujuno", 901));
    assert_eq!(r.messages[3].msg, nft_transfer("collection1", "buyer", "T.1"));
    assert_eq!(69 + 29 + 901, 999);
}

#[test]
fn escrow_is_returned_in_full_on_withdrawal() {
    let mut m = market();
    list(&mut m, "T.1", "ujuno", 100, None).unwrap();
    coin_bid(&mut m, "b1", Some("T.1"), SaleType::Auction, 10).unwrap();
    token_bid(&mut m, "b2", Some("T.1"), SaleType::Auction, 20).unwrap();
    coin_bid(&mut m, "b3", Some("T.1"), SaleType::Auction, 30).unwrap();
    let w = ExecuteMsg::WithdrawNft { nft_address: "collection1".to_string(), token_id: "T.1".to_string() };
    let r = run(&mut m, "seller1", &[], w).unwrap();
    assert_eq!(r.messages.len(), 4);
    assert_eq!(r.messages[0].msg, bank_send("b1", "ujuno", 10));
    assert_eq!(r.messages[1].msg, cw20_transfer("hope_address", "b2", 20));
    assert_eq!(r.messages[2].msg, bank_send("b3", "ujuno", 30));
    assert_eq!(r.messages[3].msg, nft_transfer("collection1", "seller1", "T.1"));
    assert!(m.query_ask("collection1".to_string(), "T.1".to_string()).is_none());
    assert!(m.query_bids_by_bidder("b1".to_string(), None, None).is_empty());
}

#[test]
fn sold_token_cannot_be_sold_again() {
    let mut m = market();
    list(&mut m, "T.1", "ujuno", 100, None).unwrap();
    coin_bid(&mut m, "b1", Some("T.1"), SaleType::Auction, 10).unwrap();
    let a = ExecuteMsg::AcceptBid { nft_address: "collection1".to_string(), token_id: "T.1".to_string(), bidder: "b1".to_string() };
    run(&mut m, "seller1", &[], a).unwrap();
    let a = ExecuteMsg::AcceptBid { nft_address: "collection1".to_string(), token_id: "T.1".to_string(), bidder: "b1".to_string() };
    assert_eq!(run(&mut m, "seller1", &[], a), Err(ContractError::AskNotFound));
    let sales = m.query_sale_history_by_token_id("collection1".to_string(), "T.1".to_string(), None, None);
    assert_eq!(sales.len(), 1);
    assert_eq!(sales[0].buyer, "b1".to_string());
    assert_eq!(sales[0].price, Asset { denom: "ujuno".to_string(), amount: 10 });
}

#[test]
fn asks_page_after_cursor() {
    let mut m = market();
    for t in ["T.1", "T.2", "T.3", "T.4"] {
        list(&mut m, t, "ujuno", 100, None).unwrap();
    }
    let page = m.query_asks("collection1".to_string(), Some("T.2".to_string()), Some(1));
    assert_eq!(page.len(), 1);
    assert_eq!(page[0].token_id, "T.3".to_string());
    let page = m.query_asks_by_seller(
        "seller1".to_string(),
        Some(CollectionOffset { collection: "collection1".to_string(), token_id: "T.3".to_string() }),
        None,
    );
    assert_eq!(page.len(), 1);
    assert_eq!(page[0].token_id, "T.4".to_string());
    assert!(m.query_asks("collection1".to_string(), Some("T.9".to_string()), None).is_empty());
    assert_eq!(m.query_asks("collection1".to_string(), None, Some(100)).len(), 4);
}

#[test]
fn traded_volume_sums_sale_prices() {
    let mut m = market();
    list(&mut m, "T.1", "ujuno", 100, None).unwrap();
    list(&mut m, "T.2", "hope", 200, Some("hope_address")).unwrap();
    list(&mut m, "T.3", "ujuno", 300, None).unwrap();
    coin_bid(&mut m, "x", Some("T.1"), SaleType::FixedPrice, 100).unwrap();
    token_bid(&mut m, "y", Some("T.2"), SaleType::FixedPrice, 200).unwrap();
    coin_bid(&mut m, "z", Some("T.3"), SaleType::FixedPrice, 300).unwrap();
    let tvl = m.query_tvl_by_collection("collection1".to_string(), None, None).unwrap();
    assert_eq!(tvl, vec![
        TvlInfo { key: "ujuno".to_string(), amount: 400 },
        TvlInfo { key: "hope".to_string(), amount: 200 },
    ]);
    let tvl = m.query_tvl_by_denom("ujuno".to_string(), None, None).unwrap();
    assert_eq!(tvl, vec![TvlInfo { key: "collection1".to_string(), amount: 400 }]);
    let tvl = m.query_tvl_by_collection("collection1".to_string(), Some("ujuno".to_string()), None).unwrap();
    assert_eq!(tvl, vec![TvlInfo { key: "hope".to_string(), amount: 200 }]);
}

#[test]
fn traded_volume_reports_overflow() {
    let mut m = market();
    list(&mut m, "T.1", "ujuno", u128::MAX, None).unwrap();
    list(&mut m, "T.2", "ujuno", u128::MAX, None).unwrap();
    coin_bid(&mut m, "x", Some("T.1"), SaleType::FixedPrice, u128::MAX).unwrap();
    coin_bid(&mut m, "x", Some("T.2"), SaleType::FixedPrice, u128::MAX).unwrap();
    assert_eq!(m.query_tvl_by_collection("collection1".to_string(), None, None), Err(ContractError::Overflow));
}

#[test]
fn collection_bid_buys_any_token_of_the_collection() {
    let mut m = market();
    list(&mut m, "T.1", "ujuno", 100, None).unwrap();
    token_bid(&mut m, "cb", None, SaleType::CollectionBid, 50).unwrap();
    let a = ExecuteMsg::AcceptCollectionBid { nft_address: "collection1".to_string(), token_id: "T.1".to_string(), bidder: "cb".to_string() };
    let r = run(&mut m, "seller1", &[], a).unwrap();
    assert_eq!(r.messages.len(), 4);
    assert_eq!(r.messages[0].msg, cw20_transfer("hope_address", "admin1", 3));
    assert_eq!(r.messages[1].msg, cw20_transfer("hope_address", "admin2", 1));
    assert_eq!(r.messages[2].msg, cw20_transfer("hope_address", "seller1", 46));
    assert_eq!(r.messages[3].msg, nft_transfer("collection1", "cb", "T.1"));
    assert!(m.query_collection_bid("collection1".to_string(), "cb".to_string()).is_none());
}

#[test]
fn bids_by_expiry_come_soonest_first() {
    let mut m = market();
    for t in ["T.1", "T.2", "T.3"] {
        list(&mut m, t, "ujuno", 100, None).unwrap();
    }
    for (t, expire) in [("T.1", NOW + 300), ("T.2", NOW + 100), ("T.3", NOW + 200)] {
        run(&mut m, "b1", &[coin("ujuno", 5)], ExecuteMsg::SetBidCoin {
            nft_address: "collection1".to_string(),
            expire,
            sale_type: SaleType::Auction,
            token_id: Some(t.to_string()),
            list_price: Asset { denom: "ujuno".to_string(), amount: 5 },
        })
        .unwrap();
    }
    let bids = m.query_bids_by_bidder_sorted_by_expiry("b1".to_string(), None, None);
    let order: Vec<String> = bids.iter().map(|b| b.token_id.clone()).collect();
    assert_eq!(order, vec!["T.2".to_string(), "T.3".to_string(), "T.1".to_string()]);
    let rest = m.query_bids_by_bidder_sorted_by_expiry(
        "b1".to_string(),
        Some(CollectionOffset { collection: "collection1".to_string(), token_id: "T.3".to_string() }),
        None,
    );
    assert_eq!(rest.len(), 1);
    assert_eq!(rest[0].token_id, "T.1".to_string());
}

fn bank_total(responses: &[Response], denom: &str) -> u128 {
    let mut total = 0;
    for r in responses {
        for m in &r.messages {
            if let CosmosMsg::Bank(BankMsg::Send { amount, .. }) = &m.msg {
                for c in amount {
                    if c.denom == denom {
                        total += c.amount;
                    }
                }
            }
        }
    }
    total
}

#[test]
fn escrow_balances_over_a_session() {
    let mut m = market();
    list(&mut m, "T.1", "ujuno", 100, None).unwrap();
    list(&mut m, "T.2", "ujuno", 100, None).unwrap();
    let mut out = Vec::new();
    out.push(coin_bid(&mut m, "b1", Some("T.1"), SaleType::Auction, 10).unwrap());
    out.push(token_bid(&mut m, "b2", Some("T.1"), SaleType::Auction, 20).unwrap());
    out.push(coin_bid(&mut m, "b3", Some("T.2"), SaleType::Auction, 30).unwrap());
    out.push(coin_bid(&mut m, "cb", None, SaleType::CollectionBid, 50).unwrap());
    out.push(coin_bid(&mut m, "x", Some("T.1"), SaleType::FixedPrice, 100).unwrap());
    let a = ExecuteMsg::AcceptCollectionBid { nft_address: "collection1".to_string(), token_id: "T.2".to_string(), bidder: "cb".to_string() };
    out.push(run(&mut m, "seller1", &[], a).unwrap());
    let deposited_ujuno = 10 + 30 + 50 + 100;
    assert_eq!(bank_total(&out, "ujuno"), deposited_ujuno);
    let cw20_refund = cw20_transfer("hope_address", "b2", 20);
    assert_eq!(out.iter().flat_map(|r| r.messages.iter()).filter(|m| m.msg == cw20_refund).count(), 1);
    assert!(m.query_bids_by_bidder("b1".to_string(), None, None).is_empty());
    assert!(m.query_collection_bids_by_bidder("cb".to_string(), None, None).is_empty());
    assert_eq!(m.query_ask_count("collection1".to_string()), 0);
}

#[test]
fn zero_amounts_are_not_sent() {
    let mut m = market();
    list(&mut m, "T.1", "ujuno", 9, None).unwrap();
    let r = coin_bid(&mut m, "buyer", Some("T.1"), SaleType::FixedPrice, 9).unwrap();
    assert_eq!(r.messages.len(), 2);
    assert_eq!(r.messages[0].msg, bank_send("seller1", "ujuno", 9));
    assert_eq!(r.messages[1].msg, nft_transfer("collection1", "buyer", "T.1"));
}
