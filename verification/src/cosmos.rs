use vstd::prelude::*;
use vstd::string::StringSliceAdditionalSpecFns;

use base64::Engine;
use cosmos_sdk_proto::prost::Message;
use sha2::Digest;

use crate::primitives::{
    AssetId, AssetIdV, Chain, Transaction, TransactionDirection, TransactionState,
    TransactionType, TransactionV, tx_views,
};

verus! {

/// Protobuf type URL of the one transfer-class message this decoder
/// recognizes; any other message type is skipped, not an error.
pub const MESSAGE_SEND: &'static str = "/cosmos.bank.v1beta1.MsgSend";

/// An amount in one denomination, both as the node reports them: the amount
/// stays a decimal string to avoid precision loss.
pub struct Coin {
    pub denom: String,
    pub amount: String,
}

pub ghost struct CoinV {
    pub denom: Seq<char>,
    pub amount: Seq<char>,
}

impl View for Coin {
    type V = CoinV;

    open spec fn view(&self) -> CoinV {
        CoinV { denom: self.denom@, amount: self.amount@ }
    }
}

impl Clone for Coin {
    fn clone(&self) -> (res: Self)
        ensures
            res@ == self@,
    {
        Coin { denom: self.denom.clone(), amount: self.amount.clone() }
    }
}

pub open spec fn coin_views(s: Seq<Coin>) -> Seq<CoinV> {
    s.map_values(|c: Coin| c@)
}

/// One message of a transaction body: a protobuf type URL and the message's
/// still-encoded bytes.
pub struct AnyMessage {
    pub type_url: String,
    pub value: Vec<u8>,
}

pub ghost struct AnyMessageV {
    pub type_url: Seq<char>,
    pub value: Seq<u8>,
}

impl View for AnyMessage {
    type V = AnyMessageV;

    open spec fn view(&self) -> AnyMessageV {
        AnyMessageV { type_url: self.type_url@, value: self.value@ }
    }
}

pub open spec fn message_views(s: Seq<AnyMessage>) -> Seq<AnyMessageV> {
    s.map_values(|m: AnyMessage| m@)
}

/// The body of a decoded transaction envelope: its messages and the
/// sender-attached memo.
pub struct TxBodyLite {
    pub messages: Vec<AnyMessage>,
    pub memo: String,
}

pub ghost struct TxBodyV {
    pub messages: Seq<AnyMessageV>,
    pub memo: Seq<char>,
}

impl View for TxBodyLite {
    type V = TxBodyV;

    open spec fn view(&self) -> TxBodyV {
        TxBodyV { messages: message_views(self.messages@), memo: self.memo@ }
    }
}

/// Signing metadata of a decoded envelope: the account sequences of its
/// signers, in order, and the fee amounts if a fee is present.
pub struct AuthInfoLite {
    pub signer_sequences: Vec<u64>,
    pub fee_amounts: Option<Vec<Coin>>,
}

pub ghost struct AuthInfoV {
    pub signer_sequences: Seq<u64>,
    pub fee_amounts: Option<Seq<CoinV>>,
}

impl View for AuthInfoLite {
    type V = AuthInfoV;

    open spec fn view(&self) -> AuthInfoV {
        AuthInfoV {
            signer_sequences: self.signer_sequences@,
            fee_amounts: match &self.fee_amounts {
                Some(v) => Some(coin_views(v@)),
                None => None,
            },
        }
    }
}

/// A chain-native transaction envelope reduced to the plain values the
/// decoder reads: optional body, optional signing metadata.
pub struct TxEnvelope {
    pub body: Option<TxBodyLite>,
    pub auth: Option<AuthInfoLite>,
}

pub ghost struct TxEnvelopeV {
    pub body: Option<TxBodyV>,
    pub auth: Option<AuthInfoV>,
}

impl View for TxEnvelope {
    type V = TxEnvelopeV;

    open spec fn view(&self) -> TxEnvelopeV {
        TxEnvelopeV {
            body: match &self.body {
                Some(b) => Some(b@),
                None => None,
            },
            auth: match &self.auth {
                Some(a) => Some(a@),
                None => None,
            },
        }
    }
}

/// A decoded bank send message: sender, receiver, and the transferred
/// amounts per denomination.
pub struct MsgSendLite {
    pub from_address: String,
    pub to_address: String,
    pub amount: Vec<Coin>,
}

pub ghost struct MsgSendV {
    pub from_address: Seq<char>,
    pub to_address: Seq<char>,
    pub amount: Seq<CoinV>,
}

impl View for MsgSendLite {
    type V = MsgSendV;

    open spec fn view(&self) -> MsgSendV {
        MsgSendV {
            from_address: self.from_address@,
            to_address: self.to_address@,
            amount: coin_views(self.amount@),
        }
    }
}

/// The first coin carried in the given denomination, if any: amounts in any
/// other denomination are dropped, an explicit single-denomination
/// simplification.
pub open spec fn first_with_denom(coins: Seq<CoinV>, denom: Seq<char>) -> Option<CoinV>
    decreases coins.len(),
{
    if coins.len() == 0 {
        None
    } else if coins[0].denom == denom {
        Some(coins[0])
    } else {
        first_with_denom(coins.drop_first(), denom)
    }
}

/// The first message whose type URL is the bank send URL, if any.
pub open spec fn first_send(msgs: Seq<AnyMessageV>) -> Option<AnyMessageV>
    decreases msgs.len(),
{
    if msgs.len() == 0 {
        None
    } else if msgs[0].type_url == MESSAGE_SEND@ {
        Some(msgs[0])
    } else {
        first_send(msgs.drop_first())
    }
}

proof fn lemma_first_with_denom_hit(coins: Seq<CoinV>, denom: Seq<char>, i: int)
    requires
        0 <= i < coins.len(),
        forall|j: int| 0 <= j < i ==> coins[j].denom != denom,
        coins[i].denom == denom,
    ensures
        first_with_denom(coins, denom) == Some(coins[i]),
    decreases i,
{
    if i > 0 {
        lemma_first_with_denom_hit(coins.drop_first(), denom, i - 1);
    }
}

proof fn lemma_first_with_denom_miss(coins: Seq<CoinV>, denom: Seq<char>)
    requires
        forall|j: int| 0 <= j < coins.len() ==> coins[j].denom != denom,
    ensures
        first_with_denom(coins, denom) is None,
    decreases coins.len(),
{
    if coins.len() > 0 {
        lemma_first_with_denom_miss(coins.drop_first(), denom);
    }
}

proof fn lemma_first_send_hit(msgs: Seq<AnyMessageV>, i: int)
    requires
        0 <= i < msgs.len(),
        forall|j: int| 0 <= j < i ==> msgs[j].type_url != MESSAGE_SEND@,
        msgs[i].type_url == MESSAGE_SEND@,
    ensures
        first_send(msgs) == Some(msgs[i]),
    decreases i,
{
    if i > 0 {
        lemma_first_send_hit(msgs.drop_first(), i - 1);
    }
}

proof fn lemma_first_send_miss(msgs: Seq<AnyMessageV>)
    requires
        forall|j: int| 0 <= j < msgs.len() ==> msgs[j].type_url != MESSAGE_SEND@,
    ensures
        first_send(msgs) is None,
    decreases msgs.len(),
{
    if msgs.len() > 0 {
        lemma_first_send_miss(msgs.drop_first());
    }
}

/// Scan a transaction body's messages for the first bank send message.
fn find_send_index(msgs: &Vec<AnyMessage>) -> (r: Option<usize>)
    ensures
        match r {
            Some(k) => k < msgs@.len() && first_send(message_views(msgs@)) == Some(
                message_views(msgs@)[k as int],
            ),
            None => first_send(message_views(msgs@)) is None,
        },
{
    let send_url: String = MESSAGE_SEND.to_owned();
    let mut i: usize = 0;
    while i < msgs.len()
        invariant
            i <= msgs@.len(),
            send_url@ == MESSAGE_SEND@,
            forall|j: int| 0 <= j < i ==> message_views(msgs@)[j].type_url != MESSAGE_SEND@,
        decreases msgs.len() - i,
    {
        if msgs[i].type_url == send_url {
            proof {
                lemma_first_send_hit(message_views(msgs@), i as int);
            }
            return Some(i);
        }
        i += 1;
    }
    proof {
        lemma_first_send_miss(message_views(msgs@));
    }
    None
}

/// Scan a coin list for the first coin in the given denomination.
fn find_coin_with_denom(coins: &Vec<Coin>, denom: &String) -> (r: Option<Coin>)
    ensures
        match r {
            Some(c) => first_with_denom(coin_views(coins@), denom@) == Some(c@),
            None => first_with_denom(coin_views(coins@), denom@) is None,
        },
{
    let mut i: usize = 0;
    while i < coins.len()
        invariant
            i <= coins.len(),
            forall|j: int| 0 <= j < i ==> coin_views(coins@)[j].denom != denom@,
        decreases coins.len() - i,
    {
        if coins[i].denom == *denom {
            proof {
                lemma_first_with_denom_hit(coin_views(coins@), denom@, i as int);
            }
            return Some(coins[i].clone());
        }
        i += 1;
    }
    proof {
        lemma_first_with_denom_miss(coin_views(coins@), denom@);
    }
    None
}

// --- height parsing -------------------------------------------------------

pub open spec fn is_ascii_digit(b: u8) -> bool {
    48 <= b <= 57
}

pub open spec fn all_ascii_digits(s: Seq<u8>) -> bool {
    forall|i: int| 0 <= i < s.len() ==> is_ascii_digit(#[trigger] s[i])
}

/// The number a string of decimal digits denotes.
pub open spec fn digits_value(s: Seq<u8>) -> int
    decreases s.len(),
{
    if s.len() == 0 {
        0
    } else {
        digits_value(s.drop_last()) * 10 + (s.last() - 48)
    }
}

/// What a reported block height parses to: a non-empty, all-digit decimal
/// string whose value fits in a `u64`; anything else is a malformed
/// response.
pub open spec fn spec_parse_height(s: Seq<u8>) -> Option<u64> {
    if s.len() == 0 || !all_ascii_digits(s) || digits_value(s) > u64::MAX {
        None
    } else {
        Some(digits_value(s) as u64)
    }
}

proof fn lemma_digits_value_nonneg(s: Seq<u8>)
    requires
        all_ascii_digits(s),
    ensures
        digits_value(s) >= 0,
    decreases s.len(),
{
    if s.len() > 0 {
        assert(all_ascii_digits(s.drop_last())) by {
            assert(forall|i: int|
                0 <= i < s.len() - 1 ==> is_ascii_digit(#[trigger] s.drop_last()[i]) == is_ascii_digit(
                    s[i],
                ));
        }
        lemma_digits_value_nonneg(s.drop_last());
    }
}

/// The value of a digit string is at least the value of any of its prefixes.
proof fn lemma_digits_value_prefix_le(s: Seq<u8>, i: int)
    requires
        all_ascii_digits(s),
        0 <= i <= s.len(),
    ensures
        digits_value(s.take(i)) <= digits_value(s),
    decreases s.len() - i,
{
    if i == s.len() {
        assert(s.take(i) =~= s);
    } else {
        lemma_digits_value_prefix_le(s, i + 1);
        assert(s.take(i + 1).drop_last() =~= s.take(i));
        assert(all_ascii_digits(s.take(i))) by {
            assert(forall|j: int|
                0 <= j < i ==> is_ascii_digit(#[trigger] s.take(i)[j]) == is_ascii_digit(s[j]));
        }
        lemma_digits_value_nonneg(s.take(i));
        assert(digits_value(s.take(i + 1)) == digits_value(s.take(i)) * 10 + (s[i] - 48));
    }
}

/// Parse a block height as the upstream node reports it: a decimal string.
/// Returns `None` for an empty string, a non-digit character, or a value
/// that does not fit in 64 bits — all treated as a malformed response.
pub fn parse_height(s: &str) -> (r: Option<u64>)
    ensures
        r == spec_parse_height(s.spec_bytes()),
{
    let bytes = s.as_bytes();
    let ghost gs = s.spec_bytes();
    if bytes.len() == 0 {
        return None;
    }
    let mut acc: u64 = 0;
    let mut i: usize = 0;
    while i < bytes.len()
        invariant
            gs == bytes@,
            gs == s.spec_bytes(),
            0 < bytes@.len(),
            i <= bytes@.len(),
            all_ascii_digits(gs.take(i as int)),
            acc == digits_value(gs.take(i as int)),
        decreases bytes.len() - i,
    {
        let b = bytes[i];
        if b < 48 || b > 57 {
            assert(!all_ascii_digits(gs)) by {
                assert(!is_ascii_digit(gs[i as int]));
            }
            return None;
        }
        let d: u64 = (b - 48) as u64;
        proof {
            assert(gs.take(i + 1 as int).drop_last() =~= gs.take(i as int));
            assert(gs.take(i + 1 as int).last() == gs[i as int]);
            assert(all_ascii_digits(gs.take(i + 1 as int))) by {
                assert(forall|j: int|
                    0 <= j < i + 1 ==> is_ascii_digit(#[trigger] gs.take(i + 1 as int)[j])
                        == is_ascii_digit(gs[j]));
            }
        }
        let limit = (u64::MAX - d) / 10;
        proof {
            vstd::arithmetic::div_mod::lemma_fundamental_div_mod(u64::MAX - d, 10);
            vstd::arithmetic::div_mod::lemma_mod_bound(u64::MAX - d, 10);
        }
        if acc > limit {
            proof {
                assert(digits_value(gs.take(i + 1 as int)) == acc * 10 + d);
                assert(digits_value(gs.take(i + 1 as int)) > u64::MAX);
                if all_ascii_digits(gs) {
                    lemma_digits_value_prefix_le(gs, i + 1);
                }
            }
            return None;
        }
        proof {
            assert(acc * 10 <= limit * 10) by (nonlinear_arith)
                requires
                    acc <= limit,
            ;
        }
        acc = acc * 10 + d;
        i += 1;
    }
    proof {
        assert(gs.take(bytes@.len() as int) =~= gs);
    }
    Some(acc)
}

// --- trusted decoding primitives ------------------------------------------

/// What standard base64 decoding yields on a string: some byte sequence, or
/// nothing when the string is not valid base64.
pub uninterp spec fn base64_decoded(s: Seq<char>) -> Option<Seq<u8>>;

/// Relies on base64's standard-alphabet engine: decoding is a function of
/// the input string alone.
#[verifier::external_body]
fn decode_base64(s: &String) -> (r: Option<Vec<u8>>)
    ensures
        match r {
            Some(v) => base64_decoded(s@) == Some(v@),
            None => base64_decoded(s@) is None,
        },
{
    base64::engine::general_purpose::STANDARD.decode(s.as_str()).ok()
}

/// What protobuf decoding of a transaction envelope yields on raw bytes,
/// reduced to the plain values this decoder reads.
pub uninterp spec fn tx_envelope_of(b: Seq<u8>) -> Option<TxEnvelopeV>;

/// Relies on prost's decoding of `cosmos.tx.v1beta1.Tx` (through
/// cosmos-sdk-proto's generated types): a function of the bytes alone. The
/// body converts the decoded message to the library's envelope, moving
/// fields only.
#[verifier::external_body]
fn decode_tx(bytes: &Vec<u8>) -> (r: Option<TxEnvelope>)
    ensures
        match r {
            Some(env) => tx_envelope_of(bytes@) == Some(env@),
            None => tx_envelope_of(bytes@) is None,
        },
{
    let tx = cosmos_sdk_proto::cosmos::tx::v1beta1::Tx::decode(bytes.as_slice()).ok()?;
    let body = tx.body.map(|b| TxBodyLite {
        messages: b.messages.into_iter().map(|m| AnyMessage { type_url: m.type_url, value: m.value }).collect(),
        memo: b.memo,
    });
    let auth = tx.auth_info.map(|a| AuthInfoLite {
        signer_sequences: a.signer_infos.into_iter().map(|s| s.sequence).collect(),
        fee_amounts: a.fee.map(|f| f.amount.into_iter().map(|c| Coin { denom: c.denom, amount: c.amount }).collect()),
    });
    Some(TxEnvelope { body, auth })
}

/// What protobuf decoding of a bank send message yields on the message
/// bytes.
pub uninterp spec fn msg_send_of(b: Seq<u8>) -> Option<MsgSendV>;

/// Relies on prost's decoding of `cosmos.bank.v1beta1.MsgSend` (through
/// cosmos-sdk-proto's generated types): a function of the bytes alone.
#[verifier::external_body]
fn decode_msg_send(bytes: &Vec<u8>) -> (r: Option<MsgSendLite>)
    ensures
        match r {
            Some(m) => msg_send_of(bytes@) == Some(m@),
            None => msg_send_of(bytes@) is None,
        },
{
    let m = cosmos_sdk_proto::cosmos::bank::v1beta1::MsgSend::decode(bytes.as_slice()).ok()?;
    Some(MsgSendLite {
        from_address: m.from_address,
        to_address: m.to_address,
        amount: m.amount.into_iter().map(|c| Coin { denom: c.denom, amount: c.amount }).collect(),
    })
}

/// The SHA-256 digest of a byte sequence.
pub uninterp spec fn sha256_of(b: Seq<u8>) -> Seq<u8>;

/// Relies on sha2's SHA-256: the digest is a function of the bytes alone.
#[verifier::external_body]
fn sha256_digest(bytes: &Vec<u8>) -> (r: Vec<u8>)
    ensures
        r@ == sha256_of(bytes@),
{
    sha2::Sha256::digest(bytes.as_slice()).to_vec()
}

/// Lowercase hex digit of a nibble.
pub open spec fn hex_digit(n: u8) -> char
    recommends
        n < 16,
{
    if n < 10 {
        ((n + 48) as char)
    } else {
        ((n + 87) as char)
    }
}

/// Lowercase hex encoding: two digits per byte, high nibble first.
pub open spec fn hex_of(b: Seq<u8>) -> Seq<char> {
    Seq::new(2 * b.len(), |i: int| if i % 2 == 0 {
        hex_digit(b[i / 2] >> 4)
    } else {
        hex_digit(b[i / 2] & 15)
    })
}

/// Relies on hex::encode: lowercase, two digits per byte, high nibble first.
#[verifier::external_body]
fn hex_encode(bytes: &Vec<u8>) -> (r: String)
    ensures
        r@ == hex_of(bytes@),
{
    hex::encode(bytes.as_slice())
}

// --- the decoder ----------------------------------------------------------

/// The canonical transaction a decoded envelope denotes, if any: the first
/// bank send message decides, its amounts and the fee are filtered to the
/// chain's default denomination, the sequence is the first signer's, and a
/// transaction without body, signer, fee, or matching amounts yields
/// nothing. `hash` is the content hash of the raw envelope bytes; `now` the
/// ingestion timestamp.
pub open spec fn spec_map_envelope(
    chain: Chain,
    block_number: u64,
    now: i64,
    hash: Seq<char>,
    env: TxEnvelopeV,
) -> Option<TransactionV> {
    match env.body {
        None => None,
        Some(body) => {
            if body.messages.len() == 0 {
                None
            } else {
                match env.auth {
                    None => None,
                    Some(auth) => {
                        if auth.signer_sequences.len() == 0 {
                            None
                        } else {
                            match first_send(body.messages) {
                                None => None,
                                Some(msg) => match msg_send_of(msg.value) {
                                    None => None,
                                    Some(send) => match auth.fee_amounts {
                                        None => None,
                                        Some(fee_coins) => spec_build_transaction(
                                            chain,
                                            block_number,
                                            now,
                                            hash,
                                            body.memo,
                                            auth.signer_sequences[0],
                                            send,
                                            fee_coins,
                                        ),
                                    },
                                },
                            }
                        }
                    },
                }
            }
        },
    }
}

/// The transaction built from a recognized send message: defined when both
/// the transferred amount and the fee carry a coin in the chain's default
/// denomination.
pub open spec fn spec_build_transaction(
    chain: Chain,
    block_number: u64,
    now: i64,
    hash: Seq<char>,
    memo: Seq<char>,
    sequence: u64,
    send: MsgSendV,
    fee_coins: Seq<CoinV>,
) -> Option<TransactionV> {
    let value_coin = first_with_denom(send.amount, chain.spec_denom());
    let fee_coin = first_with_denom(fee_coins, chain.spec_denom());
    match (value_coin, fee_coin) {
        (Some(value_coin), Some(fee_coin)) => Some(
            TransactionV {
                id: Seq::empty(),
                hash: hash,
                asset_id: AssetIdV { chain, token_id: None },
                from: send.from_address,
                to: send.to_address,
                contract: None,
                transaction_type: TransactionType::Transfer,
                state: TransactionState::Confirmed,
                block_number: block_number,
                sequence: sequence,
                fee: fee_coin.amount,
                fee_asset_id: AssetIdV { chain, token_id: None },
                value: value_coin.amount,
                memo: Some(memo),
                direction: TransactionDirection::SelfTransfer,
                created_at: now,
                updated_at: now,
            },
        ),
        _ => None,
    }
}

/// What one raw base64 transaction string of a block decodes to: base64,
/// then the protobuf envelope, then the envelope's canonical transaction,
/// hashed over the raw signed bytes.
pub open spec fn spec_map_transaction(
    chain: Chain,
    block_number: u64,
    now: i64,
    s: Seq<char>,
) -> Option<TransactionV> {
    match base64_decoded(s) {
        None => None,
        Some(b) => match tx_envelope_of(b) {
            None => None,
            Some(env) => spec_map_envelope(chain, block_number, now, hex_of(sha256_of(b)), env),
        },
    }
}

/// A chain client for Cosmos-SDK chains: owns the decode of the chain's wire
/// format into the canonical transaction model. Fetching blocks over the
/// network is the caller's concern; this type works on the fetched values.
pub struct CosmosClient {
    pub chain: Chain,
}

impl CosmosClient {
    pub fn new(chain: Chain) -> (r: CosmosClient)
        ensures
            r.chain == chain,
    {
        CosmosClient { chain }
    }

    pub fn get_chain(&self) -> (r: Chain)
        ensures
            r == self.chain,
    {
        self.chain
    }

    /// Decode one raw base64-encoded transaction of a block into at most one
    /// canonical transaction. A string that is not base64, an envelope that
    /// does not parse, or an envelope without a recognized value-bearing
    /// message yields nothing — never an error, so one malformed transaction
    /// cannot block the rest of its block.
    pub fn map_transaction(&self, block_number: u64, transaction: String, now: i64) -> (r: Option<
        Transaction,
    >)
        ensures
            match r {
                Some(t) => spec_map_transaction(self.chain, block_number, now, transaction@)
                    == Some(t@),
                None => spec_map_transaction(self.chain, block_number, now, transaction@) is None,
            },
    {
        let bytes = match decode_base64(&transaction) {
            Some(b) => b,
            None => {
                return None;
            },
        };
        let env = match decode_tx(&bytes) {
            Some(e) => e,
            None => {
                return None;
            },
        };
        let digest = sha256_digest(&bytes);
        let hash = hex_encode(&digest);
        map_envelope(self.chain, block_number, hash, &env, now)
    }

    /// Decode a fetched block's raw transaction list: the canonical
    /// transactions of exactly those entries that decode to one, in block
    /// order. An empty result is not an error.
    pub fn get_transactions(&self, block_number: u64, txs: &Vec<String>, now: i64) -> (r: Vec<
        Transaction,
    >)
        ensures
            tx_views(r@) == spec_block_transactions(
                self.chain,
                block_number,
                now,
                str_views(txs@),
            ),
    {
        let ghost gtxs = str_views(txs@);
        let mut r: Vec<Transaction> = Vec::new();
        let mut i: usize = 0;
        while i < txs.len()
            invariant
                i <= txs.len(),
                gtxs == str_views(txs@),
                tx_views(r@) == spec_block_transactions(
                    self.chain,
                    block_number,
                    now,
                    gtxs.take(i as int),
                ),
            decreases txs.len() - i,
        {
            let ghost pre = tx_views(r@);
            match self.map_transaction(block_number, txs[i].clone(), now) {
                Some(t) => {
                    let ghost tv = t@;
                    r.push(t);
                    proof {
                        assert(tx_views(r@) =~= pre.push(tv));
                    }
                },
                None => {},
            }
            proof {
                assert(gtxs.take(i + 1 as int).drop_last() =~= gtxs.take(i as int));
                assert(gtxs.take(i + 1 as int).last() == gtxs[i as int]);
                assert(tx_views(r@) =~= spec_block_transactions(
                    self.chain,
                    block_number,
                    now,
                    gtxs.take(i + 1 as int),
                ));
            }
            i += 1;
        }
        proof {
            assert(gtxs.take(txs@.len() as int) =~= gtxs);
        }
        r
    }
}

pub open spec fn str_views(s: Seq<String>) -> Seq<Seq<char>> {
    s.map_values(|x: String| x@)
}

/// The canonical transactions of one block's raw transaction list, in
/// order: entries that decode to nothing contribute nothing.
pub open spec fn spec_block_transactions(
    chain: Chain,
    block_number: u64,
    now: i64,
    txs: Seq<Seq<char>>,
) -> Seq<TransactionV>
    decreases txs.len(),
{
    if txs.len() == 0 {
        Seq::empty()
    } else {
        spec_block_transactions(chain, block_number, now, txs.drop_last()) + match
            spec_map_transaction(chain, block_number, now, txs.last()) {
            Some(t) => seq![t],
            None => Seq::empty(),
        }
    }
}

/// Decode robustness: a block holding one transaction that decodes to a
/// canonical transfer and one that does not (malformed or unsupported)
/// yields exactly the one canonical transaction — not zero, and not an
/// error — in either order.
pub proof fn lemma_decode_robustness(
    chain: Chain,
    block_number: u64,
    now: i64,
    good: Seq<char>,
    bad: Seq<char>,
    t: TransactionV,
)
    requires
        spec_map_transaction(chain, block_number, now, good) == Some(t),
        spec_map_transaction(chain, block_number, now, bad) is None,
    ensures
        spec_block_transactions(chain, block_number, now, seq![good, bad]) == seq![t],
        spec_block_transactions(chain, block_number, now, seq![bad, good]) == seq![t],
{
    let gb = seq![good, bad];
    let bg = seq![bad, good];
    let none: Seq<Seq<char>> = Seq::empty();
    assert(spec_block_transactions(chain, block_number, now, none) =~= Seq::<TransactionV>::empty());
    assert(seq![good].drop_last() =~= none);
    assert(seq![good].last() == good);
    assert(spec_block_transactions(chain, block_number, now, seq![good]) =~= seq![t]);
    assert(seq![bad].drop_last() =~= none);
    assert(seq![bad].last() == bad);
    assert(spec_block_transactions(chain, block_number, now, seq![bad]) =~= Seq::<
        TransactionV,
    >::empty());
    assert(gb.drop_last() =~= seq![good]);
    assert(gb.last() == bad);
    assert(spec_block_transactions(chain, block_number, now, gb) =~= seq![t]);
    assert(bg.drop_last() =~= seq![bad]);
    assert(bg.last() == good);
    assert(spec_block_transactions(chain, block_number, now, bg) =~= seq![t]);
}

/// Decode the envelope's canonical transaction, if it has one: the verified
/// core of `map_transaction`, usable on any already-decoded envelope.
pub fn map_envelope(
    chain: Chain,
    block_number: u64,
    hash: String,
    env: &TxEnvelope,
    now: i64,
) -> (r: Option<Transaction>)
    ensures
        match r {
            Some(t) => spec_map_envelope(chain, block_number, now, hash@, env@) == Some(t@),
            None => spec_map_envelope(chain, block_number, now, hash@, env@) is None,
        },
{
    let body = match &env.body {
        Some(b) => b,
        None => {
            return None;
        },
    };
    if body.messages.len() == 0 {
        return None;
    }
    let auth = match &env.auth {
        Some(a) => a,
        None => {
            return None;
        },
    };
    if auth.signer_sequences.len() == 0 {
        return None;
    }
    let sequence = auth.signer_sequences[0];
    let msg_index = match find_send_index(&body.messages) {
        Some(k) => k,
        None => {
            return None;
        },
    };
    let send = match decode_msg_send(&body.messages[msg_index].value) {
        Some(m) => m,
        None => {
            return None;
        },
    };
    let fee_coins = match &auth.fee_amounts {
        Some(f) => f,
        None => {
            return None;
        },
    };
    let denom: String = chain.as_denom().to_owned();
    let value_coin = match find_coin_with_denom(&send.amount, &denom) {
        Some(c) => c,
        None => {
            return None;
        },
    };
    let fee_coin = match find_coin_with_denom(fee_coins, &denom) {
        Some(c) => c,
        None => {
            return None;
        },
    };
    Some(
        Transaction {
            id: String::new(),
            hash,
            asset_id: AssetId::from_chain(chain),
            from: send.from_address,
            to: send.to_address,
            contract: None,
            transaction_type: TransactionType::Transfer,
            state: TransactionState::Confirmed,
            block_number,
            sequence,
            fee: fee_coin.amount,
            fee_asset_id: AssetId::from_chain(chain),
            value: value_coin.amount,
            memo: Some(body.memo.clone()),
            direction: TransactionDirection::SelfTransfer,
            created_at: now,
            updated_at: now,
        },
    )
}

} // verus!

