use base64::Engine;
use cosmos_sdk_proto::cosmos::bank::v1beta1::MsgSend;
use cosmos_sdk_proto::cosmos::base::v1beta1::Coin as PbCoin;
use cosmos_sdk_proto::cosmos::tx::v1beta1::{AuthInfo, Fee, SignerInfo, Tx, TxBody};
use cosmos_sdk_proto::prost::Message;
use cosmos_sdk_proto::Any;
use sha2::Digest;

use chain_indexer::cosmos::{
    map_envelope, parse_height, AnyMessage, AuthInfoLite, Coin, CosmosClient, TxBodyLite,
    TxEnvelope,
};
use chain_indexer::primitives::{Chain, TransactionDirection, TransactionState, TransactionType};

fn pb_coin(denom: &str, amount: &str) -> PbCoin {
    PbCoin {
        denom: denom.to_string(),
        amount: amount.to_string(),
    }
}

fn send_tx(fee_coins: Vec<PbCoin>, send_coins: Vec<PbCoin>, memo: &str, sequence: u64) -> Tx {
    let msg = MsgSend {
        from_address: "cosmos1sender".to_string(),
        to_address: "cosmos1receiver".to_string(),
        amount: send_coins,
    };
    let any = Any {
        type_url: "/cosmos.bank.v1beta1.MsgSend".to_string(),
        value: msg.encode_to_vec(),
    };
    Tx {
        body: Some(TxBody {
            messages: vec![any],
            memo: memo.to_string(),
            ..Default::default()
        }),
        auth_info: Some(AuthInfo {
            signer_infos: vec![SignerInfo {
                public_key: None,
                mode_info: None,
                sequence,
            }],
            fee: Some(Fee {
                amount: fee_coins,
                ..Default::default()
            }),
            ..Default::default()
        }),
        signatures: vec![],
    }
}

fn encode_b64(tx: &Tx) -> (String, Vec<u8>) {
    let bytes = tx.encode_to_vec();
    let b64 = base64::engine::general_purpose::STANDARD.encode(&bytes);
    (b64, bytes)
}

#[test]
fn decodes_well_formed_transfer() {
    let tx = send_tx(
        vec![pb_coin("uatom", "150")],
        vec![pb_coin("uatom", "12345")],
        "rent",
        7,
    );
    let (b64, bytes) = encode_b64(&tx);
    let expected_hash = hex::encode(sha2::Sha256::digest(&bytes));

    let client = CosmosClient::new(Chain::Cosmos);
    let t = client
        .map_transaction(42, b64, 1_700_000_000)
        .expect("a well-formed transfer must decode");
    assert_eq!(t.hash, expected_hash);
    assert_eq!(t.id, "");
    assert_eq!(t.from, "cosmos1sender");
    assert_eq!(t.to, "cosmos1receiver");
    assert_eq!(t.value, "12345");
    assert_eq!(t.fee, "150");
    assert_eq!(t.sequence, 7);
    assert_eq!(t.block_number, 42);
    assert_eq!(t.memo, Some("rent".to_string()));
    assert_eq!(t.contract, None);
    assert!(matches!(t.transaction_type, TransactionType::Transfer));
    assert!(matches!(t.state, TransactionState::Confirmed));
    assert!(matches!(t.direction, TransactionDirection::SelfTransfer));
    assert_eq!(t.asset_id.chain, Chain::Cosmos);
    assert_eq!(t.asset_id.token_id, None);
    assert_eq!(t.created_at, 1_700_000_000);
    assert_eq!(t.updated_at, 1_700_000_000);
}

#[test]
fn block_with_one_good_and_one_malformed_yields_exactly_one() {
    let tx = send_tx(
        vec![pb_coin("uatom", "1")],
        vec![pb_coin("uatom", "2")],
        "",
        0,
    );
    let (good, _) = encode_b64(&tx);
    let malformed = "!!!not-base64!!!".to_string();

    let client = CosmosClient::new(Chain::Cosmos);
    let txs = client.get_transactions(9, &vec![good.clone(), malformed.clone()], 0);
    assert_eq!(txs.len(), 1);
    assert_eq!(txs[0].value, "2");

    let txs_rev = client.get_transactions(9, &vec![malformed, good], 0);
    assert_eq!(txs_rev.len(), 1);
    assert_eq!(txs_rev[0].value, "2");
}

#[test]
fn unsupported_message_type_is_skipped_not_an_error() {
    let mut tx = send_tx(
        vec![pb_coin("uatom", "1")],
        vec![pb_coin("uatom", "2")],
        "",
        0,
    );
    // Replace the send message with an unrecognized message type.
    tx.body.as_mut().unwrap().messages[0].type_url = "/cosmos.gov.v1beta1.MsgVote".to_string();
    let (b64, _) = encode_b64(&tx);

    let client = CosmosClient::new(Chain::Cosmos);
    assert!(client.map_transaction(1, b64, 0).is_none());
}

#[test]
fn later_send_message_is_found_after_unsupported_one() {
    let msg = MsgSend {
        from_address: "cosmos1a".to_string(),
        to_address: "cosmos1b".to_string(),
        amount: vec![pb_coin("uatom", "5")],
    };
    let vote = Any {
        type_url: "/cosmos.gov.v1beta1.MsgVote".to_string(),
        value: vec![],
    };
    let send = Any {
        type_url: "/cosmos.bank.v1beta1.MsgSend".to_string(),
        value: msg.encode_to_vec(),
    };
    let tx = Tx {
        body: Some(TxBody {
            messages: vec![vote, send],
            memo: String::new(),
            ..Default::default()
        }),
        auth_info: Some(AuthInfo {
            signer_infos: vec![SignerInfo {
                public_key: None,
                mode_info: None,
                sequence: 3,
            }],
            fee: Some(Fee {
                amount: vec![pb_coin("uatom", "9")],
                ..Default::default()
            }),
            ..Default::default()
        }),
        signatures: vec![],
    };
    let (b64, _) = encode_b64(&tx);
    let client = CosmosClient::new(Chain::Cosmos);
    let t = client.map_transaction(2, b64, 0).expect("send must be found");
    assert_eq!(t.value, "5");
    assert_eq!(t.fee, "9");
}

#[test]
fn fee_filtering_keeps_only_default_denomination() {
    let tx = send_tx(
        vec![pb_coin("foo", "999"), pb_coin("uatom", "21")],
        vec![pb_coin("ibc/27394", "888"), pb_coin("uatom", "777")],
        "",
        1,
    );
    let (b64, _) = encode_b64(&tx);
    let client = CosmosClient::new(Chain::Cosmos);
    let t = client.map_transaction(3, b64, 0).expect("must decode");
    assert_eq!(t.fee, "21");
    assert_eq!(t.value, "777");
}

#[test]
fn transfer_without_default_denomination_yields_nothing() {
    let tx = send_tx(
        vec![pb_coin("uatom", "1")],
        vec![pb_coin("foo", "888")],
        "",
        1,
    );
    let (b64, _) = encode_b64(&tx);
    let client = CosmosClient::new(Chain::Cosmos);
    assert!(client.map_transaction(3, b64, 0).is_none());
}

#[test]
fn envelope_without_fee_or_signer_yields_nothing() {
    let no_fee = TxEnvelope {
        body: Some(TxBodyLite {
            messages: vec![AnyMessage {
                type_url: "/cosmos.bank.v1beta1.MsgSend".to_string(),
                value: MsgSend {
                    from_address: "a".to_string(),
                    to_address: "b".to_string(),
                    amount: vec![],
                }
                .encode_to_vec(),
            }],
            memo: String::new(),
        }),
        auth: Some(AuthInfoLite {
            signer_sequences: vec![1],
            fee_amounts: None,
        }),
    };
    assert!(map_envelope(Chain::Cosmos, 1, "h".to_string(), &no_fee, 0).is_none());

    let no_signer = TxEnvelope {
        body: Some(TxBodyLite {
            messages: vec![AnyMessage {
                type_url: "/cosmos.bank.v1beta1.MsgSend".to_string(),
                value: vec![],
            }],
            memo: String::new(),
        }),
        auth: Some(AuthInfoLite {
            signer_sequences: vec![],
            fee_amounts: Some(vec![Coin {
                denom: "uatom".to_string(),
                amount: "1".to_string(),
            }]),
        }),
    };
    assert!(map_envelope(Chain::Cosmos, 1, "h".to_string(), &no_signer, 0).is_none());
}

#[test]
fn envelope_fee_filtering_without_protobuf() {
    let env = TxEnvelope {
        body: Some(TxBodyLite {
            messages: vec![AnyMessage {
                type_url: "/cosmos.bank.v1beta1.MsgSend".to_string(),
                value: encoded_send_uatom_30(),
            }],
            memo: "m".to_string(),
        }),
        auth: Some(AuthInfoLite {
            signer_sequences: vec![11, 22],
            fee_amounts: Some(vec![
                Coin {
                    denom: "juno".to_string(),
                    amount: "4"
                        .to_string(),
                },
                Coin {
                    denom: "uatom".to_string(),
                    amount: "6".to_string(),
                },
            ]),
        }),
    };
    let t = map_envelope(Chain::Cosmos, 8, "hash".to_string(), &env, 77).expect("decodes");
    assert_eq!(t.fee, "6");
    assert_eq!(t.value, "30");
    // The sequence is the first signer's.
    assert_eq!(t.sequence, 11);
    assert_eq!(t.hash, "hash");
    assert_eq!(t.created_at, 77);
}

fn encoded_send_uatom_30() -> Vec<u8> {
    MsgSend {
        from_address: "x".to_string(),
        to_address: "y".to_string(),
        amount: vec![pb_coin("uatom", "30")],
    }
    .encode_to_vec()
}

#[test]
fn empty_block_decodes_to_empty_list() {
    let client = CosmosClient::new(Chain::Cosmos);
    let txs = client.get_transactions(1, &vec![], 0);
    assert_eq!(txs.len(), 0);
}

#[test]
fn parse_height_accepts_digits_only() {
    assert_eq!(parse_height("0"), Some(0));
    assert_eq!(parse_height("123"), Some(123));
    assert_eq!(parse_height("18446744073709551615"), Some(u64::MAX));
    assert_eq!(parse_height("18446744073709551616"), None);
    assert_eq!(parse_height(""), None);
    assert_eq!(parse_height("12a"), None);
    assert_eq!(parse_height("latest"), None);
    assert_eq!(parse_height("-5"), None);
}
