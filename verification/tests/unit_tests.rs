use cosmwasm_std::testing::mock_env;
use cosmwasm_std::{to_binary, Env, Uint128};
use cw20::Cw20ExecuteMsg;
use cw721::Cw721ExecuteMsg;

use marketplace::decimal::Decimal;
use marketplace::market::{instantiate, Market};
use marketplace::types::{
    Asset, BankMsg, BuyNft, Coin, CollectionOffsetBid, ContractError, CosmosMsg, Cw20ReceiveMsg,
    Cw721ReceiveMsg, ExecuteMsg, InstantiateMsg, MessageInfo, Response, SaleHistoryOffsetByUser,
    SaleType, SellNft, UserInfo, WasmMsg,
};

fn now(env: &Env) -> u64 {
    env.block.time.seconds()
}

fn mock_info(sender: &str, funds: &[Coin]) -> MessageInfo {
    MessageInfo { sender: sender.to_string(), funds: funds.to_vec() }
}

fn execute(market: &mut Market, env: Env, info: MessageInfo, msg: ExecuteMsg) -> Result<Response, ContractError> {
    market.execute(now(&env), &info, msg)
}

fn bank_send(to: &str, denom: &str, amount: u128) -> CosmosMsg {
    CosmosMsg::Bank(BankMsg::Send {
        to_address: to.to_string(),
        amount: vec![Coin { denom: denom.to_string(), amount }],
    })
}

fn cw20_transfer(contract: &str, recipient: &str, amount: u128) -> CosmosMsg {
    CosmosMsg::Wasm(WasmMsg::Execute {
        contract_addr: contract.to_string(),
        msg: to_binary(&Cw20ExecuteMsg::Transfer { recipient: recipient.to_string(), amount: Uint128::new(amount) })
            .unwrap()
            .to_vec(),
        funds: vec![],
    })
}

fn nft_transfer(contract: &str, recipient: &str, token_id: &str) -> CosmosMsg {
    CosmosMsg::Wasm(WasmMsg::Execute {
        contract_addr: contract.to_string(),
        msg: to_binary(&Cw721ExecuteMsg::TransferNft { recipient: recipient.to_string(), token_id: token_id.to_string() })
            .unwrap()
            .to_vec(),
        funds: vec![],
    })
}

fn setup_contract() -> Market {
    let instantiate_msg = InstantiateMsg { owner: "owner".to_string(), admin: "admin".to_string() };
    let (market, res) = instantiate(instantiate_msg);
    assert_eq!(res.messages.len(), 0);
    market
}

fn add_contract(market: &mut Market, env: Env, address: String) {
    let info = mock_info("owner", &[]);
    let msg = ExecuteMsg::AddCollection {
        royalty_portion: Decimal::from_ratio(1u128, 10u128),
        nft_address: address,
        members: vec![
            UserInfo { address: "admin1".to_string(), portion: Decimal::from_ratio(7u128, 10u128) },
            UserInfo { address: "admin2".to_string(), portion: Decimal::from_ratio(3u128, 10u128) },
        ],
    };
    let res = execute(market, env, info, msg).unwrap();
    assert_eq!(res.messages.len(), 0)
}

fn add_coin(market: &mut Market, env: Env, denom: String) {
    let info = mock_info("owner", &[]);
    let msg = ExecuteMsg::AddCoin { symbol: denom };
    let res = execute(market, env, info, msg).unwrap();
    assert_eq!(res.messages.len(), 0)
}

fn add_token(market: &mut Market, env: Env, denom: String, address: String) {
    let info = mock_info("owner", &[]);
    let msg = ExecuteMsg::AddTokenAddress { symbol: denom, address };
    let res = execute(market, env, info, msg).unwrap();
    assert_eq!(res.messages.len(), 0)
}

fn sell_nft(
    market: &mut Market,
    env: Env,
    collection: &str,
    sender: String,
    denom: String,
    amount: u128,
    token_address: Option<String>,
    token_id: String,
) {
    let sell_msg = SellNft { list_price: Asset { denom, amount }, expire: now(&env) + 300, token_address };
    let info = mock_info(collection, &[]);
    let msg = ExecuteMsg::ReceiveNft(Cw721ReceiveMsg { sender, token_id, msg: sell_msg });
    execute(market, env, info.clone(), msg).unwrap();
}

fn buy_with_token(
    market: &mut Market,
    env: Env,
    sale_type: SaleType,
    collection: String,
    token_id: Option<String>,
    token_address: &str,
    sender: String,
    amount: u128,
) -> Result<Response, ContractError> {
    let bid_msg = BuyNft { nft_address: collection, expire: now(&env) + 300, sale_type, token_id };
    let info = mock_info(token_address, &[]);
    let msg = ExecuteMsg::Receive(Cw20ReceiveMsg { sender, amount, msg: bid_msg });
    let res = execute(market, env, info, msg).unwrap();
    Ok(res)
}

fn bid_nft_with_token(
    market: &mut Market,
    env: Env,
    collection: String,
    token_id: Option<String>,
    token_address: &str,
    sender: String,
    amount: u128,
) -> Result<Response, ContractError> {
    buy_with_token(market, env, SaleType::Auction, collection, token_id, token_address, sender, amount)
}

fn bid_nft_with_token_fixed_price(
    market: &mut Market,
    env: Env,
    collection: String,
    token_id: Option<String>,
    token_address: &str,
    sender: String,
    amount: u128,
) -> Result<Response, ContractError> {
    buy_with_token(market, env, SaleType::FixedPrice, collection, token_id, token_address, sender, amount)
}

fn collection_bid_nft_with_token(
    market: &mut Market,
    env: Env,
    collection: String,
    token_id: Option<String>,
    token_address: &str,
    sender: String,
    amount: u128,
) -> Result<Response, ContractError> {
    buy_with_token(market, env, SaleType::CollectionBid, collection, token_id, token_address, sender, amount)
}

fn buy_with_coin(
    market: &mut Market,
    env: Env,
    sale_type: SaleType,
    collection: String,
    token_id: Option<String>,
    sender: &str,
    denom: String,
    amount: u128,
) -> Result<Response, ContractError> {
    let info = mock_info(sender, &[Coin { denom: denom.clone(), amount }]);
    let msg = ExecuteMsg::SetBidCoin {
        nft_address: collection,
        expire: now(&env) + 300,
        sale_type,
        token_id,
        list_price: Asset { denom, amount },
    };
    let res = execute(market, env, info, msg).unwrap();
    Ok(res)
}

fn bid_nft_with_coin(
    market: &mut Market,
    env: Env,
    collection: String,
    token_id: Option<String>,
    sender: &str,
    denom: String,
    amount: u128,
) -> Result<Response, ContractError> {
    buy_with_coin(market, env, SaleType::Auction, collection, token_id, sender, denom, amount)
}

fn bid_nft_with_coin_fixed_price(
    market: &mut Market,
    env: Env,
    collection: String,
    token_id: Option<String>,
    sender: &str,
    denom: String,
    amount: u128,
) -> Result<Response, ContractError> {
    buy_with_coin(market, env, SaleType::FixedPrice, collection, token_id, sender, denom, amount)
}

fn collection_bid_nft_with_coin(
    market: &mut Market,
    env: Env,
    collection: String,
    token_id: Option<String>,
    sender: &str,
    denom: String,
    amount: u128,
) -> Result<Response, ContractError> {
    buy_with_coin(market, env, SaleType::CollectionBid, collection, token_id, sender, denom, amount)
}

/// The setup every trading test starts from: two collections, the native
/// coin "ujuno" and the cw20 token "hope".
fn setup_market(env: &Env) -> Market {
    let mut market = setup_contract();
    add_contract(&mut market, env.clone(), "collection1".to_string());
    add_contract(&mut market, env.clone(), "collection2".to_string());
    add_coin(&mut market, env.clone(), "ujuno".to_string());
    add_token(&mut market, env.clone(), "hope".to_string(), "hope_address".to_string());
    market
}

#[test]
fn init_contract() {
    let instantiate_msg = InstantiateMsg { owner: "owner".to_string(), admin: "admin".to_string() };
    let (market, res) = instantiate(instantiate_msg);
    assert_eq!(0, res.messages.len());
    let state = market.query_state_info();
    assert_eq!(state.owner, "owner".to_string());
}

#[test]
fn put_nft_sale() {
    let env = mock_env();
    let mut market = setup_market(&env);

    sell_nft(&mut market, env.clone(), "collection1", "seller1".to_string(), "ujuno".to_string(), 10000, None, "Hope.1".to_string());
    sell_nft(
        &mut market,
        env.clone(),
        "collection1",
        "seller1".to_string(),
        "hope".to_string(),
        10000,
        Some("hope_address".to_string()),
        "Punk.1".to_string(),
    );

    let _individual_ask = market.query_ask("collection1".to_string(), "Hope.1".to_string()).unwrap();
    let _ask_by_seller = market.query_asks_by_seller("seller1".to_string(), None, Some(20));
    let _ask_by_collection = market.query_asks("collection1".to_string(), Some("Hope.1".to_string()), Some(20));
}

#[test]
fn test_bid() {
    let env = mock_env();
    let mut market = setup_market(&env);

    sell_nft(&mut market, env.clone(), "collection1", "seller1".to_string(), "ujuno".to_string(), 10000, None, "Hope.1".to_string());
    sell_nft(
        &mut market,
        env.clone(),
        "collection2",
        "seller1".to_string(),
        "hope".to_string(),
        10000,
        Some("hope_address".to_string()),
        "Punk.1".to_string(),
    );

    let _result = bid_nft_with_token(&mut market, env.clone(), "collection1".to_string(), Some("Hope.1".to_string()), "hope_address", "bider1".to_string(), 3000).unwrap();
    let _result = bid_nft_with_token(&mut market, env.clone(), "collection1".to_string(), Some("Hope.1".to_string()), "hope_address", "bider2".to_string(), 5000).unwrap();
    let _result = bid_nft_with_coin(&mut market, env.clone(), "collection1".to_string(), Some("Hope.1".to_string()), "bider3", "ujuno".to_string(), 7000).unwrap();
    let _result = bid_nft_with_coin(&mut market, env.clone(), "collection2".to_string(), Some("Punk.1".to_string()), "bider1", "ujuno".to_string(), 3000).unwrap();
    let _result = bid_nft_with_coin(&mut market, env.clone(), "collection2".to_string(), Some("Punk.1".to_string()), "bider2", "ujuno".to_string(), 5000).unwrap();
    let _result = bid_nft_with_coin(&mut market, env.clone(), "collection2".to_string(), Some("Punk.1".to_string()), "bider3", "ujuno".to_string(), 5000).unwrap();

    let info = mock_info("bider3", &[]);
    let msg = ExecuteMsg::RemoveBid { nft_address: "collection1".to_string(), token_id: "Hope.1".to_string() };
    let res = execute(&mut market, env, info, msg).unwrap();
    assert_eq!(res.messages.len(), 1);
    assert_eq!(res.messages[0].msg, bank_send("bider3", "ujuno", 7000));

    let _bids_by_bidder = market.query_bids_by_bidder("bider3".to_string(), None, Some(20));
    println!("{:?}", _bids_by_bidder);

    let _bids_collection = market.query_bids("collection1".to_string(), "Hope.1".to_string(), None, Some(30));
    let _bids_by_seller = market.query_bids_by_seller(
        "seller1".to_string(),
        Some(CollectionOffsetBid {
            collection: "collection1".to_string(),
            token_id: "Hope.1".to_string(),
            bidder: "bider1".to_string(),
        }),
        Some(10),
    );

    println!("{:?}", _bids_collection)
}

/// The listings and bids of the withdrawal and acceptance tests.
fn setup_bids(env: &Env) -> Market {
    let mut market = setup_market(env);
    sell_nft(&mut market, env.clone(), "collection1", "seller1".to_string(), "ujuno".to_string(), 10000, None, "Hope.1".to_string());
    sell_nft(
        &mut market,
        env.clone(),
        "collection2",
        "seller1".to_string(),
        "hope".to_string(),
        10000,
        Some("hope_address".to_string()),
        "Punk.1".to_string(),
    );
    bid_nft_with_token(&mut market, env.clone(), "collection1".to_string(), Some("Hope.1".to_string()), "hope_address", "bider1".to_string(), 3000).unwrap();
    bid_nft_with_token(&mut market, env.clone(), "collection1".to_string(), Some("Hope.1".to_string()), "hope_address", "bider2".to_string(), 5000).unwrap();
    bid_nft_with_coin(&mut market, env.clone(), "collection1".to_string(), Some("Hope.1".to_string()), "bider3", "ujuno".to_string(), 7000).unwrap();
    bid_nft_with_coin(&mut market, env.clone(), "collection2".to_string(), Some("Punk.1".to_string()), "bider1", "ujuno".to_string(), 3000).unwrap();
    market
}

#[test]
fn withdraw_nft() {
    let env = mock_env();
    let mut market = setup_bids(&env);
    bid_nft_with_coin(&mut market, env.clone(), "collection2".to_string(), Some("Punk.1".to_string()), "bider2", "ujuno".to_string(), 7000).unwrap();
    bid_nft_with_token(&mut market, env.clone(), "collection2".to_string(), Some("Punk.1".to_string()), "hope_address", "bider3".to_string(), 7000).unwrap();

    let info = mock_info("seller1", &[]);
    let msg = ExecuteMsg::WithdrawNft { nft_address: "collection1".to_string(), token_id: "Hope.1".to_string() };
    let res = execute(&mut market, env, info, msg).unwrap();
    assert_eq!(res.messages.len(), 4);

    assert_eq!(res.messages[0].msg, cw20_transfer("hope_address", "bider1", 3000));
    assert_eq!(res.messages[1].msg, cw20_transfer("hope_address", "bider2", 5000));
    assert_eq!(res.messages[2].msg, bank_send("bider3", "ujuno", 7000));
    assert_eq!(res.messages[3].msg, nft_transfer("collection1", "seller1", "Hope.1"));

    let ask = market.query_asks("collection1".to_string(), None, Some(20));
    println!("{:?}", ask)
}

#[test]
fn accept_bid() {
    let env = mock_env();
    let mut market = setup_bids(&env);
    bid_nft_with_coin(&mut market, env.clone(), "collection2".to_string(), Some("Punk.1".to_string()), "bider2", "ujuno".to_string(), 5000).unwrap();
    bid_nft_with_token(&mut market, env.clone(), "collection2".to_string(), Some("Punk.1".to_string()), "hope_address", "bider3".to_string(), 7000).unwrap();

    let info = mock_info("seller1", &[]);
    let msg = ExecuteMsg::AcceptBid {
        nft_address: "collection1".to_string(),
        token_id: "Hope.1".to_string(),
        bidder: "bider1".to_string(),
    };
    let res = execute(&mut market, env.clone(), info, msg).unwrap();

    assert_eq!(res.messages[0].msg, cw20_transfer("hope_address", "bider2", 5000));
    assert_eq!(res.messages[1].msg, bank_send("bider3", "ujuno", 7000));
    assert_eq!(res.messages[2].msg, cw20_transfer("hope_address", "admin1", 210));
    assert_eq!(res.messages[3].msg, cw20_transfer("hope_address", "admin2", 90));
    assert_eq!(res.messages[4].msg, cw20_transfer("hope_address", "seller1", 2700));
    assert_eq!(res.messages[5].msg, nft_transfer("collection1", "bider1", "Hope.1"));

    let info = mock_info("seller1", &[]);
    let msg = ExecuteMsg::AcceptBid {
        nft_address: "collection2".to_string(),
        token_id: "Punk.1".to_string(),
        bidder: "bider3".to_string(),
    };
    let res = execute(&mut market, env.clone(), info, msg).unwrap();
    assert_eq!(res.messages.len(), 6);

    let _ask_by_collection = market.query_asks("collection1".to_string(), Some("Hope.1".to_string()), Some(20));
    let _ask_by_collection = market.query_asks("collection2".to_string(), Some("Hope.1".to_string()), Some(20));

    sell_nft(&mut market, env.clone(), "collection1", "seller1".to_string(), "ujuno".to_string(), 10000, None, "Hope.5".to_string());
    let _result = bid_nft_with_token(&mut market, env.clone(), "collection1".to_string(), Some("Hope.5".to_string()), "hope_address", "bider1".to_string(), 5000).unwrap();

    let info = mock_info("seller1", &[]);
    let msg = ExecuteMsg::AcceptBid {
        nft_address: "collection1".to_string(),
        token_id: "Hope.5".to_string(),
        bidder: "bider1".to_string(),
    };
    let _res = execute(&mut market, env.clone(), info, msg).unwrap();

    let tvl = market.query_tvl_by_collection("collection1".to_string(), None, Some(30)).unwrap();
    println!("{:?}", tvl);
    let _tvl = market.query_tvl_by_denom("hope".to_string(), None, Some(20)).unwrap();

    let sale_history = market.query_sale_history_by_seller(
        "seller1".to_string(),
        Some(SaleHistoryOffsetByUser { collection: "collection1".to_string(), token_id: "Hope.1".to_string(), time: 1571797419 }),
        Some(20),
    );
    println!("{:?}", sale_history);
}

#[test]
fn fixed_price_buy() {
    let env = mock_env();
    let mut market = setup_market(&env);

    sell_nft(&mut market, env.clone(), "collection1", "seller1".to_string(), "ujuno".to_string(), 10000, None, "Hope.1".to_string());
    sell_nft(&mut market, env.clone(), "collection1", "seller1".to_string(), "hope".to_string(), 20000, Some("hope_address".to_string()), "Hope.2".to_string());
    sell_nft(&mut market, env.clone(), "collection1", "seller1".to_string(), "hope".to_string(), 10000, Some("hope_address".to_string()), "Hope.3".to_string());

    let _res = bid_nft_with_token(&mut market, env.clone(), "collection1".to_string(), Some("Hope.1".to_string()), "hope_address", "bider1".to_string(), 3000).unwrap();
    let _res = bid_nft_with_coin(&mut market, env.clone(), "collection1".to_string(), Some("Hope.1".to_string()), "bider2", "ujuno".to_string(), 3000).unwrap();
    let _res = bid_nft_with_token(&mut market, env.clone(), "collection1".to_string(), Some("Hope.2".to_string()), "hope_address", "bider1".to_string(), 3000).unwrap();
    let _res = bid_nft_with_coin(&mut market, env.clone(), "collection1".to_string(), Some("Hope.2".to_string()), "bider2", "ujuno".to_string(), 3000).unwrap();

    let _res = bid_nft_with_coin_fixed_price(&mut market, env.clone(), "collection1".to_string(), Some("Hope.1".to_string()), "buyer1", "ujuno".to_string(), 10000).unwrap();

    assert_eq!(_res.messages.len(), 6);
    assert_eq!(_res.messages[0].msg, cw20_transfer("hope_address", "bider1", 3000));
    assert_eq!(_res.messages[1].msg, bank_send("bider2", "ujuno", 3000));
    assert_eq!(_res.messages[2].msg, bank_send("admin1", "ujuno", 700));
    assert_eq!(_res.messages[3].msg, bank_send("admin2", "ujuno", 300));
    assert_eq!(_res.messages[4].msg, bank_send("seller1", "ujuno", 9000));
    assert_eq!(_res.messages[5].msg, nft_transfer("collection1", "buyer1", "Hope.1"));

    let _res = bid_nft_with_token_fixed_price(&mut market, env.clone(), "collection1".to_string(), Some("Hope.2".to_string()), "hope_address", "buyer1".to_string(), 20000).unwrap();

    assert_eq!(6, _res.messages.len());
    assert_eq!(_res.messages[0].msg, cw20_transfer("hope_address", "bider1", 3000));
    assert_eq!(_res.messages[1].msg, bank_send("bider2", "ujuno", 3000));
    assert_eq!(_res.messages[2].msg, cw20_transfer("hope_address", "admin1", 1400));
    assert_eq!(_res.messages[3].msg, cw20_transfer("hope_address", "admin2", 600));
    assert_eq!(_res.messages[4].msg, cw20_transfer("hope_address", "seller1", 18000));
    assert_eq!(_res.messages[5].msg, nft_transfer("collection1", "buyer1", "Hope.2"));

    let tvl = market.query_tvl_by_denom("ujuno".to_string(), None, Some(20)).unwrap();
    println!("{:?}", tvl);
    let tvl = market.query_tvl_by_denom("hope".to_string(), None, Some(20)).unwrap();
    println!("{:?}", tvl);

    let sale_history = market.query_sale_history("collection2".to_string(), None, Some(20));
    println!("{:?}", sale_history);

    let sale_history = market.query_sale_history_by_buyer(
        "buyer1".to_string(),
        Some(SaleHistoryOffsetByUser { collection: "collection1".to_string(), token_id: "Hope.1".to_string(), time: 1571797419 }),
        Some(20),
    );
    println!("{:?}", sale_history);

    let sale_history = market.query_sale_history_by_seller("seller1".to_string(), None, Some(20));
    println!("{:?}", sale_history);

    let bid = market.query_bids("collection1".to_string(), "Hope.1".to_string(), None, Some(30));
    println!("{:?}", bid);
    let ask = market.query_asks("collection1".to_string(), None, Some(20));
    println!("{:?}", ask);
}

#[test]
fn test_collection_bid() {
    let env = mock_env();
    let mut market = setup_market(&env);

    sell_nft(&mut market, env.clone(), "collection1", "seller1".to_string(), "ujuno".to_string(), 10000, None, "Hope.1".to_string());
    sell_nft(&mut market, env.clone(), "collection2", "seller2".to_string(), "hope".to_string(), 20000, Some("hope_address".to_string()), "Hope.2".to_string());

    let _res = collection_bid_nft_with_coin(&mut market, env.clone(), "collection1".to_string(), None, "collection_bider1", "ujuno".to_string(), 3000).unwrap();
    let _res = collection_bid_nft_with_token(&mut market, env.clone(), "collection1".to_string(), None, "hope_address", "collection_bider2".to_string(), 3000).unwrap();
    let _res = collection_bid_nft_with_coin(&mut market, env.clone(), "collection2".to_string(), None, "collection_bider1", "ujuno".to_string(), 3000).unwrap();

    let collection_bid = market.query_collection_bid_by_collection("collection1".to_string(), Some("collection_bider1".to_string()), Some(20));
    println!("{:?}", collection_bid);

    let collection_bid = market.query_collection_bids_by_bidder("collection_bider1".to_string(), None, Some(20));
    println!("{:?}", collection_bid);
}

#[test]
fn accept_collection_bid() {
    let env = mock_env();
    let mut market = setup_market(&env);

    sell_nft(&mut market, env.clone(), "collection1", "seller1".to_string(), "ujuno".to_string(), 10000, None, "Hope.1".to_string());
    let _res = bid_nft_with_token(&mut market, env.clone(), "collection1".to_string(), Some("Hope.1".to_string()), "hope_address", "bider1".to_string(), 3000).unwrap();
    let _res = bid_nft_with_coin(&mut market, env.clone(), "collection1".to_string(), Some("Hope.1".to_string()), "bider2", "ujuno".to_string(), 3000).unwrap();

    sell_nft(&mut market, env.clone(), "collection1", "seller1".to_string(), "ujuno".to_string(), 10000, None, "Hope.2".to_string());
    let _res = bid_nft_with_token(&mut market, env.clone(), "collection1".to_string(), Some("Hope.2".to_string()), "hope_address", "bider1".to_string(), 3000).unwrap();
    let _res = bid_nft_with_coin(&mut market, env.clone(), "collection1".to_string(), Some("Hope.2".to_string()), "bider2", "ujuno".to_string(), 3000).unwrap();

    let _res = collection_bid_nft_with_coin(&mut market, env.clone(), "collection1".to_string(), None, "collection_bider1", "ujuno".to_string(), 3000).unwrap();
    let _res = collection_bid_nft_with_token(&mut market, env.clone(), "collection1".to_string(), None, "hope_address", "collection_bider2".to_string(), 3000);

    let info = mock_info("seller1", &[]);
    let msg = ExecuteMsg::AcceptCollectionBid {
        nft_address: "collection1".to_string(),
        token_id: "Hope.1".to_string(),
        bidder: "collection_bider1".to_string(),
    };
    let res = execute(&mut market, env.clone(), info, msg).unwrap();

    assert_eq!(6, res.messages.len());
    assert_eq!(res.messages[0].msg, cw20_transfer("hope_address", "bider1", 3000));
    assert_eq!(res.messages[1].msg, bank_send("bider2", "ujuno", 3000));
    assert_eq!(res.messages[2].msg, bank_send("admin1", "ujuno", 210));
    assert_eq!(res.messages[3].msg, bank_send("admin2", "ujuno", 90));
    assert_eq!(res.messages[4].msg, bank_send("seller1", "ujuno", 2700));
    assert_eq!(res.messages[5].msg, nft_transfer("collection1", "collection_bider1", "Hope.1"));

    let info = mock_info("seller1", &[]);
    let msg = ExecuteMsg::AcceptCollectionBid {
        nft_address: "collection1".to_string(),
        token_id: "Hope.2".to_string(),
        bidder: "collection_bider2".to_string(),
    };
    let res = execute(&mut market, env.clone(), info, msg).unwrap();

    assert_eq!(res.messages[0].msg, cw20_transfer("hope_address", "bider1", 3000));
    assert_eq!(res.messages[1].msg, bank_send("bider2", "ujuno", 3000));
    assert_eq!(res.messages[2].msg, cw20_transfer("hope_address", "admin1", 210));
    assert_eq!(res.messages[3].msg, cw20_transfer("hope_address", "admin2", 90));
    assert_eq!(res.messages[4].msg, cw20_transfer("hope_address", "seller1", 2700));
    assert_eq!(res.messages[5].msg, nft_transfer("collection1", "collection_bider2", "Hope.2"));

    let tvl = market.query_tvl_by_collection("collection1".to_string(), None, Some(20)).unwrap();
    println!("{:?}", tvl);

    let sale_history = market.query_sale_history("collection1".to_string(), None, Some(20));
    println!("{:?}", sale_history);

    let mut env = mock_env();
    println!("{:?}", env.block.time.seconds());
    env.block.time = env.block.time.plus_seconds(3500);
    println!("{:?}", env.block.time.seconds())
}
