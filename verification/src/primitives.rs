use vstd::prelude::*;

verus! {

/// The supported blockchains. One indexing loop instance runs per chain and
/// the set is a process-wide constant.
#[derive(Clone, Copy, Debug, PartialEq, Eq, Structural)]
pub enum Chain {
    Binance,
    Cosmos,
}

impl Chain {
    pub open spec fn spec_str(self) -> Seq<char> {
        match self {
            Chain::Binance => "binance"@,
            Chain::Cosmos => "cosmos"@,
        }
    }

    /// Stable textual key of the chain, used to key durable parser state.
    pub fn as_str(&self) -> (r: &'static str)
        ensures
            r@ == self.spec_str(),
    {
        match self {
            Chain::Binance => "binance",
            Chain::Cosmos => "cosmos",
        }
    }

    pub open spec fn spec_denom(self) -> Seq<char> {
        match self {
            Chain::Binance => "bnb"@,
            Chain::Cosmos => "uatom"@,
        }
    }

    /// Denomination of the chain's default (native) asset. Transfer amounts
    /// and fees are filtered to this denomination when decoding.
    pub fn as_denom(&self) -> (r: &'static str)
        ensures
            r@ == self.spec_denom(),
    {
        match self {
            Chain::Binance => "bnb",
            Chain::Cosmos => "uatom",
        }
    }
}

/// Composite asset identifier: a chain plus an optional token contract or
/// denomination; `None` identifies the chain's native asset.
pub struct AssetId {
    pub chain: Chain,
    pub token_id: Option<String>,
}

pub ghost struct AssetIdV {
    pub chain: Chain,
    pub token_id: Option<Seq<char>>,
}

impl View for AssetId {
    type V = AssetIdV;

    open spec fn view(&self) -> AssetIdV {
        AssetIdV { chain: self.chain, token_id: view_opt_str(&self.token_id) }
    }
}

pub open spec fn view_opt_str(o: &Option<String>) -> Option<Seq<char>> {
    match o {
        Some(s) => Some(s@),
        None => None,
    }
}

impl Clone for AssetId {
    fn clone(&self) -> (res: Self)
        ensures
            res@ == self@,
    {
        AssetId {
            chain: self.chain,
            token_id: match &self.token_id {
                Some(s) => Some(s.clone()),
                None => None,
            },
        }
    }
}

impl AssetId {
    /// The native asset of a chain: no token discriminator.
    pub fn from_chain(chain: Chain) -> (r: AssetId)
        ensures
            r@ == (AssetIdV { chain, token_id: None }),
    {
        AssetId { chain, token_id: None }
    }
}

/// Classification of a canonical transaction.
#[derive(Clone, Copy, Debug, PartialEq, Eq, Structural)]
pub enum TransactionType {
    Transfer,
}

/// Lifecycle status. The indexer only observes finalized chain state, so the
/// state is fixed at construction and never transitioned afterwards.
#[derive(Clone, Copy, Debug, PartialEq, Eq, Structural)]
pub enum TransactionState {
    Confirmed,
}

/// Relationship of a transaction to a subscribed address; decoders assign a
/// default, resolution happens relative to the matching subscription.
#[derive(Clone, Copy, Debug, PartialEq, Eq, Structural)]
pub enum TransactionDirection {
    SelfTransfer,
    Incoming,
    Outgoing,
}

/// One transfer-class event normalized across chains. Amounts are decimal
/// strings to avoid floating-point precision loss; timestamps are ingestion
/// times in unix seconds, not chain times.
pub struct Transaction {
    /// Locally assigned identifier, empty until persisted.
    pub id: String,
    /// Hex-encoded digest of the raw signed transaction bytes; (chain, hash)
    /// uniquely identifies a transaction.
    pub hash: String,
    pub asset_id: AssetId,
    pub from: String,
    pub to: String,
    pub contract: Option<String>,
    pub transaction_type: TransactionType,
    pub state: TransactionState,
    pub block_number: u64,
    /// The sender's account sequence/nonce at signing time, used for
    /// idempotent replay detection.
    pub sequence: u64,
    pub fee: String,
    pub fee_asset_id: AssetId,
    pub value: String,
    pub memo: Option<String>,
    pub direction: TransactionDirection,
    pub created_at: i64,
    pub updated_at: i64,
}

pub ghost struct TransactionV {
    pub id: Seq<char>,
    pub hash: Seq<char>,
    pub asset_id: AssetIdV,
    pub from: Seq<char>,
    pub to: Seq<char>,
    pub contract: Option<Seq<char>>,
    pub transaction_type: TransactionType,
    pub state: TransactionState,
    pub block_number: u64,
    pub sequence: u64,
    pub fee: Seq<char>,
    pub fee_asset_id: AssetIdV,
    pub value: Seq<char>,
    pub memo: Option<Seq<char>>,
    pub direction: TransactionDirection,
    pub created_at: i64,
    pub updated_at: i64,
}

impl View for Transaction {
    type V = TransactionV;

    open spec fn view(&self) -> TransactionV {
        TransactionV {
            id: self.id@,
            hash: self.hash@,
            asset_id: self.asset_id@,
            from: self.from@,
            to: self.to@,
            contract: view_opt_str(&self.contract),
            transaction_type: self.transaction_type,
            state: self.state,
            block_number: self.block_number,
            sequence: self.sequence,
            fee: self.fee@,
            fee_asset_id: self.fee_asset_id@,
            value: self.value@,
            memo: view_opt_str(&self.memo),
            direction: self.direction,
            created_at: self.created_at,
            updated_at: self.updated_at,
        }
    }
}

impl Clone for Transaction {
    fn clone(&self) -> (res: Self)
        ensures
            res@ == self@,
    {
        Transaction {
            id: self.id.clone(),
            hash: self.hash.clone(),
            asset_id: self.asset_id.clone(),
            from: self.from.clone(),
            to: self.to.clone(),
            contract: match &self.contract {
                Some(s) => Some(s.clone()),
                None => None,
            },
            transaction_type: self.transaction_type,
            state: self.state,
            block_number: self.block_number,
            sequence: self.sequence,
            fee: self.fee.clone(),
            fee_asset_id: self.fee_asset_id.clone(),
            value: self.value.clone(),
            memo: match &self.memo {
                Some(s) => Some(s.clone()),
                None => None,
            },
            direction: self.direction,
            created_at: self.created_at,
            updated_at: self.updated_at,
        }
    }
}

/// The view of a sequence of transactions.
pub open spec fn tx_views(s: Seq<Transaction>) -> Seq<TransactionV> {
    s.map_values(|t: Transaction| t@)
}

impl Transaction {
    /// The chain addresses a transaction touches: sender then receiver.
    pub fn addresses(&self) -> (r: Vec<String>)
        ensures
            r@.len() == 2,
            r@[0]@ == self@.from,
            r@[1]@ == self@.to,
    {
        let mut v: Vec<String> = Vec::new();
        v.push(self.from.clone());
        v.push(self.to.clone());
        v
    }
}

/// A standing interest registration binding a device to an address on one
/// chain. Created and deleted by the device-facing API; read-only here.
pub struct Subscription {
    pub device_id: i32,
    pub chain: Chain,
    pub address: String,
}

pub ghost struct SubscriptionV {
    pub device_id: i32,
    pub chain: Chain,
    pub address: Seq<char>,
}

impl View for Subscription {
    type V = SubscriptionV;

    open spec fn view(&self) -> SubscriptionV {
        SubscriptionV { device_id: self.device_id, chain: self.chain, address: self.address@ }
    }
}

impl Clone for Subscription {
    fn clone(&self) -> (res: Self)
        ensures
            res@ == self@,
    {
        Subscription {
            device_id: self.device_id,
            chain: self.chain,
            address: self.address.clone(),
        }
    }
}

/// A push-notification delivery target, owned by the device API.
#[derive(Debug)]
pub struct Device {
    pub id: String,
    pub platform: String,
    pub token: String,
    pub is_push_enabled: bool,
}

pub ghost struct DeviceV {
    pub id: Seq<char>,
    pub platform: Seq<char>,
    pub token: Seq<char>,
    pub is_push_enabled: bool,
}

impl View for Device {
    type V = DeviceV;

    open spec fn view(&self) -> DeviceV {
        DeviceV {
            id: self.id@,
            platform: self.platform@,
            token: self.token@,
            is_push_enabled: self.is_push_enabled,
        }
    }
}

impl Clone for Device {
    fn clone(&self) -> (res: Self)
        ensures
            res@ == self@,
    {
        Device {
            id: self.id.clone(),
            platform: self.platform.clone(),
            token: self.token.clone(),
            is_push_enabled: self.is_push_enabled,
        }
    }
}

/// The durable row shape a device is stored under.
pub struct DeviceRecord {
    pub device_id: String,
    pub platform: String,
    pub token: String,
    pub is_push_enabled: bool,
}

impl DeviceRecord {
    /// Storage row for a device: the device's public identifier becomes the
    /// row key.
    pub fn from_device(device: &Device) -> (r: DeviceRecord)
        ensures
            r.device_id@ == device@.id,
            r.platform@ == device@.platform,
            r.token@ == device@.token,
            r.is_push_enabled == device@.is_push_enabled,
    {
        DeviceRecord {
            device_id: device.id.clone(),
            platform: device.platform.clone(),
            token: device.token.clone(),
            is_push_enabled: device.is_push_enabled,
        }
    }

    /// Reconstruct the API-facing device from its stored row.
    pub fn to_device(&self) -> (r: Device)
        ensures
            r@.id == self.device_id@,
            r@.platform == self.platform@,
            r@.token == self.token@,
            r@.is_push_enabled == self.is_push_enabled,
    {
        Device {
            id: self.device_id.clone(),
            platform: self.platform.clone(),
            token: self.token.clone(),
            is_push_enabled: self.is_push_enabled,
        }
    }
}

} // verus!
