use chain_indexer::asset_rank::AssetRank;
use chain_indexer::asset_type::{AssetSubtype, AssetType};
use chain_indexer::indexer::{plan_cycle, refresh, advance_after_height, CycleDecision, ParserState};
use chain_indexer::matcher::{
    dedup_by_id, match_subscriptions, process_height, transactions_of_matches,
};
use chain_indexer::primitives::{
    AssetId, Chain, Device, DeviceRecord, Subscription, Transaction, TransactionDirection,
    TransactionState, TransactionType,
};
use chain_indexer::storage_model::{nodes_version, retention_cutoff, ChartPeriod};
use chain_indexer::store::TransactionStore;

fn tx(id: &str, hash: &str, from: &str, to: &str, block: u64) -> Transaction {
    Transaction {
        id: id.to_string(),
        hash: hash.to_string(),
        asset_id: AssetId::from_chain(Chain::Cosmos),
        from: from.to_string(),
        to: to.to_string(),
        contract: None,
        transaction_type: TransactionType::Transfer,
        state: TransactionState::Confirmed,
        block_number: block,
        sequence: 0,
        fee: "1".to_string(),
        fee_asset_id: AssetId::from_chain(Chain::Cosmos),
        value: "10".to_string(),
        memo: None,
        direction: TransactionDirection::SelfTransfer,
        created_at: 0,
        updated_at: 0,
    }
}

fn sub(device_id: i32, address: &str) -> Subscription {
    Subscription {
        device_id,
        chain: Chain::Cosmos,
        address: address.to_string(),
    }
}

#[test]
fn catch_up_chunking_processes_one_bounded_burst() {
    let state = ParserState {
        chain: Chain::Binance,
        current_block: 0,
        latest_block: 250,
        await_blocks: 0,
    };
    let decision = plan_cycle(&state, 100);
    assert_eq!(decision, CycleDecision::CatchUp { start: 1, end: 100 });

    // Processing the burst persists current_block = 100 and no further.
    let mut state = state;
    match decision {
        CycleDecision::CatchUp { start, end } => {
            let mut h = start;
            while h <= end {
                advance_after_height(&mut state, h);
                h += 1;
            }
        }
        CycleDecision::Wait => panic!("a backlog of 250 must not wait"),
    }
    assert_eq!(state.current_block, 100);

    // The next burst continues at 101 and stops at the next chunk boundary.
    assert_eq!(
        plan_cycle(&state, 100),
        CycleDecision::CatchUp {
            start: 101,
            end: 200
        }
    );
}

#[test]
fn wait_state_inside_reorg_buffer_fetches_nothing() {
    let state = ParserState {
        chain: Chain::Binance,
        current_block: 100,
        latest_block: 100,
        await_blocks: 2,
    };
    assert_eq!(plan_cycle(&state, 100), CycleDecision::Wait);

    // Still waiting while the tip is within the buffer.
    let state = refresh(&state, 102);
    assert_eq!(state.latest_block, 102);
    assert_eq!(plan_cycle(&state, 100), CycleDecision::Wait);

    // One height beyond the buffer starts a catch-up burst.
    let state = refresh(&state, 103);
    assert_eq!(
        plan_cycle(&state, 100),
        CycleDecision::CatchUp {
            start: 101,
            end: 103
        }
    );
}

#[test]
fn burst_stops_at_tip_when_chunk_is_larger() {
    let state = ParserState {
        chain: Chain::Cosmos,
        current_block: 10,
        latest_block: 20,
        await_blocks: 0,
    };
    assert_eq!(
        plan_cycle(&state, 100),
        CycleDecision::CatchUp { start: 11, end: 20 }
    );
}

#[test]
fn matching_yields_exactly_the_subscribed_pairs() {
    let t1 = tx("", "h1", "A", "B", 1);
    let t2 = tx("", "h2", "C", "D", 1);
    let subs = vec![sub(1, "A"), sub(2, "D")];
    let txs = vec![t1, t2];

    let matches = match_subscriptions(&subs, &txs);
    assert_eq!(matches.len(), 2);
    assert_eq!(matches[0].device_id, 1);
    assert_eq!(matches[0].transaction.hash, "h1");
    assert_eq!(matches[1].device_id, 2);
    assert_eq!(matches[1].transaction.hash, "h2");
}

#[test]
fn one_transaction_can_match_several_devices() {
    let t1 = tx("", "h1", "A", "B", 1);
    let subs = vec![sub(1, "A"), sub(2, "B"), sub(3, "X")];
    let txs = vec![t1];

    let matches = match_subscriptions(&subs, &txs);
    assert_eq!(matches.len(), 2);
    assert_eq!(matches[0].device_id, 1);
    assert_eq!(matches[1].device_id, 2);
}

#[test]
fn dedup_keeps_one_canonical_copy_per_id() {
    let a = tx("x", "h1", "A", "B", 1);
    let b = tx("x", "h1", "A", "B", 1);
    let c = tx("y", "h2", "C", "D", 1);
    let deduped = dedup_by_id(&vec![a, b, c]);
    assert_eq!(deduped.len(), 2);
    assert_eq!(deduped[0].id, "x");
    assert_eq!(deduped[1].id, "y");
}

#[test]
fn persistence_pipeline_dedups_matched_transactions() {
    let t1 = tx("i1", "h1", "A", "B", 1);
    let subs = vec![sub(1, "A"), sub(2, "B")];
    let matches = match_subscriptions(&subs, &vec![t1]);
    // Two notifications, one persisted row.
    assert_eq!(matches.len(), 2);
    let to_persist = dedup_by_id(&transactions_of_matches(&matches));
    assert_eq!(to_persist.len(), 1);
    assert_eq!(to_persist[0].hash, "h1");
}

#[test]
fn process_height_fans_out_and_dedups_independently() {
    let t1 = tx("i1", "h1", "A", "B", 1);
    let subs = vec![sub(1, "A"), sub(2, "B")];
    let (matches, to_persist) = process_height(&vec![t1], &subs);
    assert_eq!(matches.len(), 2);
    assert_eq!(to_persist.len(), 1);
    assert_eq!(to_persist[0].hash, "h1");
}

#[test]
fn reingesting_the_same_height_is_idempotent() {
    let batch = vec![tx("", "h1", "A", "B", 5), tx("", "h2", "C", "D", 5)];
    let mut store = TransactionStore::new();
    store.add_transactions(&batch);
    assert_eq!(store.rows.len(), 2);

    // The same decoded batch again: refreshed, never duplicated.
    store.add_transactions(&batch);
    assert_eq!(store.rows.len(), 2);
    assert_eq!(store.rows[0].hash, "h1");
    assert_eq!(store.rows[1].hash, "h2");
}

#[test]
fn upsert_on_conflict_refreshes_merged_columns_only() {
    let first = tx("", "h1", "A", "B", 5);
    let mut second = tx("", "h1", "A", "B", 6);
    second.fee = "2".to_string();
    second.value = "999".to_string();
    second.updated_at = 9;

    let mut store = TransactionStore::new();
    store.add_transactions(&vec![first]);
    store.add_transactions(&vec![second]);
    assert_eq!(store.rows.len(), 1);
    // Refreshed on conflict:
    assert_eq!(store.rows[0].block_number, 6);
    assert_eq!(store.rows[0].fee, "2");
    assert_eq!(store.rows[0].updated_at, 9);
    // Kept from the stored row:
    assert_eq!(store.rows[0].value, "10");
    assert_eq!(store.rows[0].created_at, 0);
}

#[test]
fn distinct_hashes_on_one_chain_are_both_kept() {
    let mut store = TransactionStore::new();
    store.add_transactions(&vec![tx("", "h1", "A", "B", 1)]);
    store.add_transactions(&vec![tx("", "h2", "A", "B", 1)]);
    assert_eq!(store.rows.len(), 2);
}

#[test]
fn transaction_addresses_are_sender_then_receiver() {
    let t = tx("", "h", "alice", "bob", 1);
    let addrs = t.addresses();
    assert_eq!(addrs, vec!["alice".to_string(), "bob".to_string()]);
}

#[test]
fn participant_addresses_cover_the_whole_batch() {
    let txs = vec![tx("", "h1", "A", "B", 1), tx("", "h2", "C", "D", 1)];
    let addrs = chain_indexer::matcher::participant_addresses(&txs);
    assert_eq!(
        addrs,
        vec![
            "A".to_string(),
            "B".to_string(),
            "C".to_string(),
            "D".to_string()
        ]
    );
}

#[test]
fn asset_type_names_round_trip() {
    let all = [
        AssetType::NATIVE,
        AssetType::ERC20,
        AssetType::BEP2,
        AssetType::BEP20,
        AssetType::SPL,
        AssetType::ARBITRUM,
        AssetType::TRC20,
    ];
    for t in all {
        let parsed = AssetType::from_str(t.as_str()).expect("every name parses");
        assert_eq!(parsed.as_str(), t.as_str());
    }
    assert_eq!(AssetType::NATIVE.as_str(), "NATIVE");
    assert_eq!(AssetType::ERC20.as_str(), "ERC20");
    assert!(AssetType::from_str("erc20").is_none());
    assert!(AssetType::from_str("").is_none());
    assert!(matches!(AssetType::from_str("TRC20"), Some(AssetType::TRC20)));
    let _native_token = AssetSubtype::NATIVE;
    let _token = AssetSubtype::TOKEN;
}

#[test]
fn asset_rank_scores() {
    assert_eq!(AssetRank::High.rank(), 100);
    assert_eq!(AssetRank::Medium.rank(), 50);
    assert_eq!(AssetRank::Low.rank(), 25);
    assert_eq!(AssetRank::Trivial.rank(), 15);
    assert_eq!(AssetRank::Unknown.rank(), 0);
    assert_eq!(AssetRank::Inactive.rank(), -2);
    assert_eq!(AssetRank::Abandoned.rank(), -5);
    assert_eq!(AssetRank::Suspended.rank(), -8);
    assert_eq!(AssetRank::Migrated.rank(), -10);
    assert_eq!(AssetRank::Deprecated.rank(), -12);
    assert_eq!(AssetRank::Spam.rank(), -15);
    assert_eq!(AssetRank::Fradulent.rank(), -20);
}

#[test]
fn chart_period_lookups() {
    assert_eq!(ChartPeriod::Hour.period_sql(), "minute");
    assert_eq!(ChartPeriod::Week.period_sql(), "hour");
    assert_eq!(ChartPeriod::All.period_sql(), "day");
    assert_eq!(ChartPeriod::Hour.period_minutes(), 60);
    assert_eq!(ChartPeriod::Day.period_minutes(), 1440);
    assert_eq!(ChartPeriod::Week.period_minutes(), 10_080);
    assert_eq!(ChartPeriod::Month.period_minutes(), 43_200);
    assert_eq!(ChartPeriod::Quarter.period_minutes(), 131_400);
    assert_eq!(ChartPeriod::Year.period_minutes(), 525_600);
    assert_eq!(ChartPeriod::All.period_minutes(), 10_525_600);
}

#[test]
fn nodes_version_sums_node_ids() {
    assert_eq!(nodes_version(&vec![1, 2, 3]), 6);
    assert_eq!(nodes_version(&vec![]), 0);
    assert_eq!(nodes_version(&vec![-5, 10]), 5);
}

#[test]
fn retention_cutoff_counts_whole_days() {
    assert_eq!(retention_cutoff(1_000_000, 1), 913_600);
    assert_eq!(retention_cutoff(1_700_000_000, 0), 1_700_000_000);
}

#[test]
fn device_record_round_trip() {
    let d = Device {
        id: "dev-1".to_string(),
        platform: "ios".to_string(),
        token: "tok".to_string(),
        is_push_enabled: true,
    };
    let rec = DeviceRecord::from_device(&d);
    assert_eq!(rec.device_id, "dev-1");
    let back = rec.to_device();
    assert_eq!(back.id, "dev-1");
    assert_eq!(back.platform, "ios");
    assert_eq!(back.token, "tok");
    assert!(back.is_push_enabled);
}

#[test]
fn chain_names_and_denominations() {
    assert_eq!(Chain::Binance.as_str(), "binance");
    assert_eq!(Chain::Cosmos.as_str(), "cosmos");
    assert_eq!(Chain::Cosmos.as_denom(), "uatom");
}
