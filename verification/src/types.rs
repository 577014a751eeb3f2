//! The records the marketplace keeps and the messages it takes and emits.
use vstd::prelude::*;

use crate::decimal::Decimal;

verus! {

/// An amount of one currency: a native denomination or a cw20 token's symbol.
#[derive(Clone, Debug, PartialEq, Eq)]
pub struct Asset {
    pub denom: String,
    pub amount: u128,
}

/// A native coin sent along with a message.
#[derive(Clone, Debug, PartialEq, Eq)]
pub struct Coin {
    pub denom: String,
    pub amount: u128,
}

/// A member of a collection and its portion of the collection's royalty.
#[derive(Clone, Debug, PartialEq, Eq)]
pub struct UserInfo {
    pub address: String,
    pub portion: Decimal,
}

/// A cw721 contract whose tokens may be traded here, with its royalty rule.
#[derive(Clone, Debug, PartialEq, Eq)]
pub struct Collection {
    pub nft_address: String,
    pub royalty_portion: Decimal,
    pub members: Vec<UserInfo>,
}

/// A cw20 token accepted as a currency: its symbol and contract address.
#[derive(Clone, Debug, PartialEq, Eq)]
pub struct TokenInfo {
    pub symbol: String,
    pub address: String,
}

/// How a buyer means to acquire a token.
#[derive(Clone, Copy, Debug, PartialEq, Eq)]
pub enum SaleType {
    FixedPrice,
    Auction,
    CollectionBid,
}

/// A token listed for sale; the marketplace holds the token meanwhile.
#[derive(Clone, Debug, PartialEq, Eq)]
pub struct Ask {
    pub collection: String,
    pub token_id: String,
    pub seller: String,
    pub list_price: Asset,
    pub expires_at: u64,
    pub token_address: Option<String>,
}

/// An offer on one listed token; the marketplace holds the offered funds.
#[derive(Clone, Debug, PartialEq, Eq)]
pub struct Bid {
    pub collection: String,
    pub token_id: String,
    pub bidder: String,
    pub seller: String,
    pub price: Asset,
    pub token_address: Option<String>,
    pub expires_at: u64,
}

/// An offer on any token of a collection; the marketplace holds the funds.
#[derive(Clone, Debug, PartialEq, Eq)]
pub struct CollectionBid {
    pub collection: String,
    pub bidder: String,
    pub price: Asset,
    pub token_address: Option<String>,
    pub expires_at: u64,
}

/// A completed sale.
#[derive(Clone, Debug, PartialEq, Eq)]
pub struct SaleRecord {
    pub collection: String,
    pub token_id: String,
    pub seller: String,
    pub buyer: String,
    pub price: Asset,
    pub token_address: Option<String>,
    pub time: u64,
}

/// The marketplace's owner and admin.
#[derive(Clone, Debug, PartialEq, Eq)]
pub struct State {
    pub owner: String,
    pub admin: String,
}

/// The total traded in one currency, or in one collection.
#[derive(Clone, Debug, PartialEq, Eq)]
pub struct TvlInfo {
    pub key: String,
    pub amount: u128,
}

/// A position among asks or bids: a token of a collection.
#[derive(Clone, Debug, PartialEq, Eq)]
pub struct CollectionOffset {
    pub collection: String,
    pub token_id: String,
}

/// A position among bids: a bidder's bid on a token of a collection.
#[derive(Clone, Debug, PartialEq, Eq)]
pub struct CollectionOffsetBid {
    pub collection: String,
    pub token_id: String,
    pub bidder: String,
}

/// A position among collection bids: a bidder's bid on a collection.
#[derive(Clone, Debug, PartialEq, Eq)]
pub struct CollectionBidOffset {
    pub collection: String,
    pub bidder: String,
}

/// A position in one collection's sale history.
#[derive(Clone, Debug, PartialEq, Eq)]
pub struct SaleHistoryOffset {
    pub token_id: String,
    pub time: u64,
}

/// A position in a buyer's or seller's sale history.
#[derive(Clone, Debug, PartialEq, Eq)]
pub struct SaleHistoryOffsetByUser {
    pub collection: String,
    pub token_id: String,
    pub time: u64,
}

/// Who sent a message and the native coins that came with it.
#[derive(Clone, Debug, PartialEq, Eq)]
pub struct MessageInfo {
    pub sender: String,
    pub funds: Vec<Coin>,
}

pub struct InstantiateMsg {
    pub owner: String,
    pub admin: String,
}

/// The listing terms a seller sends along with the token.
#[derive(Clone, Debug, PartialEq, Eq)]
pub struct SellNft {
    pub list_price: Asset,
    pub expire: u64,
    pub token_address: Option<String>,
}

/// The terms a buyer sends along with cw20 tokens.
#[derive(Clone, Debug, PartialEq, Eq)]
pub struct BuyNft {
    pub nft_address: String,
    pub expire: u64,
    pub sale_type: SaleType,
    pub token_id: Option<String>,
}

/// A cw721 contract's notice that `sender` sent it `token_id`, with the
/// listing terms.
#[derive(Clone, Debug, PartialEq, Eq)]
pub struct Cw721ReceiveMsg {
    pub sender: String,
    pub token_id: String,
    pub msg: SellNft,
}

/// A cw20 contract's notice that `sender` sent it `amount`, with the
/// buying terms.
#[derive(Clone, Debug, PartialEq, Eq)]
pub struct Cw20ReceiveMsg {
    pub sender: String,
    pub amount: u128,
    pub msg: BuyNft,
}

pub enum ExecuteMsg {
    AddCollection { royalty_portion: Decimal, nft_address: String, members: Vec<UserInfo> },
    AddCoin { symbol: String },
    AddTokenAddress { symbol: String, address: String },
    ReceiveNft(Cw721ReceiveMsg),
    Receive(Cw20ReceiveMsg),
    SetBidCoin {
        nft_address: String,
        expire: u64,
        sale_type: SaleType,
        token_id: Option<String>,
        list_price: Asset,
    },
    RemoveBid { nft_address: String, token_id: String },
    RemoveCollectionBid { nft_address: String },
    WithdrawNft { nft_address: String, token_id: String },
    AcceptBid { nft_address: String, token_id: String, bidder: String },
    AcceptCollectionBid { nft_address: String, token_id: String, bidder: String },
}

/// What the marketplace owes someone as the result of a message.
#[derive(Clone, Debug, PartialEq, Eq)]
pub enum Payment {
    /// An amount of a currency; `token_address` is the cw20 contract, or
    /// `None` for a native coin.
    Funds { recipient: String, asset: Asset, token_address: Option<String> },
    /// A token of a collection.
    Nft { collection: String, recipient: String, token_id: String },
}

/// A bank transfer of native coins.
#[derive(Clone, Debug, PartialEq, Eq)]
pub enum BankMsg {
    Send { to_address: String, amount: Vec<Coin> },
}

/// A call of another contract with a JSON message.
#[derive(Clone, Debug, PartialEq, Eq)]
pub enum WasmMsg {
    Execute { contract_addr: String, msg: Vec<u8>, funds: Vec<Coin> },
}

/// A message the marketplace asks the chain to carry out.
#[derive(Clone, Debug, PartialEq, Eq)]
pub enum CosmosMsg {
    Bank(BankMsg),
    Wasm(WasmMsg),
}

#[derive(Clone, Debug, PartialEq, Eq)]
pub struct SubMsg {
    pub msg: CosmosMsg,
}

/// The messages that carry out a handled message.
#[derive(Clone, Debug, PartialEq, Eq)]
pub struct Response {
    pub messages: Vec<SubMsg>,
}

/// Why a message was refused.
#[derive(Clone, Copy, Debug, PartialEq, Eq)]
pub enum ContractError {
    Unauthorized,
    InvalidPortion,
    CollectionNotFound,
    UnknownCurrency,
    InvalidFunds,
    InvalidExpiration,
    AskExists,
    AskNotFound,
    AskExpired,
    BidExists,
    BidNotFound,
    BidExpired,
    TokenIdRequired,
    PriceMismatch,
    Overflow,
}

} // verus!
