use consumption_tracker::clients::{
    broadcast, consumption_event, disconnected_clients, publish, remove_disconnected_clients, replay,
    retain_connected, welcome,
};
use consumption_tracker::feed::{
    block_facts, note_new_block, try_note_new_block, BlockFacts, ConsumptionUpdate, LastBlock, TimestampCache, UpdateCache,
};
use consumption_tracker::query::{MissingValue, QueryError};
use consumption_tracker::types::{Parachain, ProofSize, RefTime, Share};
use consumption_tracker::weights::ConsumptionReport;
use std::convert::Infallible;
use tokio::sync::mpsc::{unbounded_channel, UnboundedReceiver};
use warp::sse::Event;

fn share(consumed: u64) -> Share {
    Share { consumed, limit: 100 }
}

fn report() -> ConsumptionReport {
    ConsumptionReport {
        block_number: 0,
        ref_time: RefTime { normal: share(1), operational: share(2), mandatory: share(3) },
        proof_size: ProofSize { normal: share(4), operational: share(5), mandatory: share(6) },
        total_proof_size: share(15),
    }
}

fn para(para_id: u32) -> Parachain {
    Parachain { para_id, relay_chain: "Polkadot".to_string(), rpcs: vec![] }
}

fn facts(block_number: u32, timestamp: u64) -> BlockFacts {
    BlockFacts { block_number, extrinsics_num: 5, authorities_num: 3, timestamp }
}

fn update(para_id: u32, block_number: u32) -> ConsumptionUpdate {
    let mut timestamps = TimestampCache::new();
    note_new_block(&para(para_id), &facts(block_number, 1_000), &report(), &mut timestamps)
}

fn received(receiver: &mut UnboundedReceiver<Result<Event, Infallible>>) -> Option<String> {
    match receiver.try_recv() {
        Ok(Ok(event)) => Some(event.to_string()),
        _ => None,
    }
}

#[test]
fn update_tells_of_block() {
    let mut timestamps = TimestampCache::new();
    let told = note_new_block(&para(1000), &facts(123456, 6_000), &report(), &mut timestamps);
    assert_eq!(told.para_id, 1000);
    assert_eq!(told.relay, "Polkadot");
    assert_eq!(told.block_number, 123456);
    assert_eq!(told.extrinsics_num, 5);
    assert_eq!(told.authorities_num, 3);
    assert_eq!(told.timestamp, 6_000);
    assert_eq!(told.block_time_ms, None);
    assert_eq!(told.ref_time.mandatory, share(3));
    assert_eq!(told.proof_size.operational, share(5));
    assert_eq!(told.total_proof_size, share(15));
}

#[test]
fn block_time_of_sequential_blocks() {
    let mut timestamps = TimestampCache::new();
    assert_eq!(timestamps.note(7, 10, 60_000), None);
    assert_eq!(timestamps.note(7, 11, 72_500), Some(12_500));
    assert_eq!(timestamps.note(7, 12, 72_500), Some(0));
}

#[test]
fn block_time_outlives_gaps() {
    let mut timestamps = TimestampCache::new();
    timestamps.note(7, 10, 60_000);
    timestamps.note(7, 11, 66_000);
    assert_eq!(timestamps.note(7, 20, 200_000), Some(6_000));
    assert_eq!(timestamps.note(7, 20, 100), Some(6_000));
    assert_eq!(timestamps.note(7, 21, 12_100), Some(12_000));
}

#[test]
fn first_block_counts_from_zero() {
    let mut timestamps = TimestampCache::new();
    assert_eq!(timestamps.last_block(7), LastBlock { block_number: 0, timestamp: 0, block_time_ms: None });
    assert_eq!(timestamps.note(7, 1, 5_000), Some(5_000));
}

#[test]
fn parachains_do_not_mix() {
    let mut timestamps = TimestampCache::new();
    timestamps.note(7, 10, 60_000);
    assert_eq!(timestamps.note(8, 11, 66_000), None);
    assert_eq!(
        timestamps.last_block(7),
        LastBlock { block_number: 10, timestamp: 60_000, block_time_ms: None }
    );
}

#[test]
fn cache_keeps_latest_of_each() {
    let mut cache = UpdateCache::new();
    cache.store(update(1, 10));
    cache.store(update(2, 20));
    cache.store(update(1, 11));
    let mut kept: Vec<(u32, u32)> = cache.updates().iter().map(|u| (u.para_id, u.block_number)).collect();
    kept.sort();
    assert_eq!(kept, vec![(1, 11), (2, 20)]);
}

#[test]
fn empty_cache_lists_nothing() {
    assert!(UpdateCache::new().updates().is_empty());
}

#[test]
fn event_of_update() {
    let event = consumption_event(&update(1000, 123456), "{}".to_string());
    assert_eq!(event.id, "1000-123456");
    assert_eq!(event.event, "consumptionUpdate");
    assert_eq!(event.data, "{}");
}

#[test]
fn broadcast_reaches_open_clients() {
    let (tx_a, mut rx_a) = unbounded_channel();
    let (tx_b, rx_b) = unbounded_channel();
    let (tx_c, mut rx_c) = unbounded_channel();
    let (tx_d, rx_d) = unbounded_channel();
    drop(rx_b);
    drop(rx_d);
    let mut clients = vec![tx_a, tx_b, tx_c, tx_d];
    let gone = broadcast(&mut clients, &update(1000, 5), &"{\"a\":1}".to_string());
    assert_eq!(gone, vec![1, 3]);
    let sent = "event:consumptionUpdate\ndata:{\"a\":1}\nid:1000-5\n\n".to_string();
    assert_eq!(received(&mut rx_a), Some(sent.clone()));
    assert_eq!(received(&mut rx_a), None);
    assert_eq!(received(&mut rx_c), Some(sent));
}

#[test]
fn removal_after_broadcast_leaves_open_clients() {
    let (tx_a, rx_a) = unbounded_channel();
    let (tx_b, mut rx_b) = unbounded_channel();
    drop(rx_a);
    let mut clients = vec![tx_a, tx_b];
    let gone = broadcast(&mut clients, &update(3, 4), &"x".to_string());
    remove_disconnected_clients(&mut clients, &gone);
    assert_eq!(clients.len(), 1);
    assert!(received(&mut rx_b).is_some());
    assert!(broadcast(&mut clients, &update(3, 5), &"y".to_string()).is_empty());
    assert_eq!(received(&mut rx_b), Some("event:consumptionUpdate\ndata:y\nid:3-5\n\n".to_string()));
}

#[test]
fn replay_in_order() {
    let (mut tx, mut rx) = unbounded_channel();
    let first = update(1, 10);
    let second = update(2, 20);
    replay(&mut tx, &vec![&first, &second], &vec!["p".to_string(), "q".to_string()]);
    assert_eq!(received(&mut rx), Some("event:consumptionUpdate\ndata:p\nid:1-10\n\n".to_string()));
    assert_eq!(received(&mut rx), Some("event:consumptionUpdate\ndata:q\nid:2-20\n\n".to_string()));
    assert_eq!(received(&mut rx), None);
}

#[test]
fn replay_to_closed_client_is_passed_over() {
    let (mut tx, rx) = unbounded_channel();
    drop(rx);
    let first = update(1, 10);
    replay(&mut tx, &vec![&first], &vec!["p".to_string()]);
    assert!(tx.is_closed());
}

#[test]
fn disconnected_positions() {
    assert_eq!(disconnected_clients(&vec![true, false, true, false]), vec![1, 3]);
    assert!(disconnected_clients(&vec![true, true]).is_empty());
    assert!(disconnected_clients(&vec![]).is_empty());
}

#[test]
fn removal_of_listed_positions() {
    let mut clients = vec!['a', 'b', 'c', 'd', 'e'];
    remove_disconnected_clients(&mut clients, &vec![0, 2, 4]);
    assert_eq!(clients, vec!['b', 'd']);
    remove_disconnected_clients(&mut clients, &vec![]);
    assert_eq!(clients, vec!['b', 'd']);
    remove_disconnected_clients(&mut clients, &vec![0, 1]);
    assert!(clients.is_empty());
}

#[test]
fn removal_from_last_to_first() {
    let mut clients = vec!['a', 'b', 'c', 'd'];
    remove_disconnected_clients(&mut clients, &vec![1, 1]);
    assert_eq!(clients, vec!['a', 'd']);
}

#[test]
fn connected_clients_stay() {
    let mut clients = vec![10, 20, 30];
    retain_connected(&mut clients, &vec![true, false, true]);
    assert_eq!(clients, vec![10, 30]);
}

#[test]
fn published_update_is_kept_and_sent() {
    let (tx_a, rx_a) = unbounded_channel();
    let (tx_b, mut rx_b) = unbounded_channel();
    drop(rx_a);
    let mut clients = vec![tx_a, tx_b];
    let mut cache = UpdateCache::new();
    let text: Result<String, &str> = Ok("z".to_string());
    assert_eq!(publish(update(5, 6), text, &mut cache, &mut clients), Ok(vec![0]));
    assert_eq!(received(&mut rx_b), Some("event:consumptionUpdate\ndata:z\nid:5-6\n\n".to_string()));
    assert_eq!(cache.updates().len(), 1);
    assert_eq!(cache.updates()[0].block_number, 6);
}

#[test]
fn update_without_text_is_neither_kept_nor_sent() {
    let (tx, mut rx) = unbounded_channel();
    let mut clients = vec![tx];
    let mut cache = UpdateCache::new();
    assert_eq!(publish(update(5, 6), Err("json"), &mut cache, &mut clients), Err("json"));
    assert!(cache.updates().is_empty());
    assert_eq!(received(&mut rx), None);
}

#[test]
fn facts_of_a_block() {
    let read = block_facts::<u8, &str>(9, Ok(4), &Ok(Some(vec![1, 2])), Ok(Some(77))).unwrap();
    assert_eq!(
        read,
        BlockFacts { block_number: 9, extrinsics_num: 4, authorities_num: 2, timestamp: 77 }
    );
    let unknown = block_facts::<u8, &str>(9, Ok(4), &Err("session"), Ok(Some(77))).unwrap();
    assert_eq!(unknown.authorities_num, 0);
}

#[test]
fn facts_that_could_not_be_had() {
    let none: Result<Option<Vec<u8>>, &str> = Ok(None);
    let failed = block_facts(9, Err("body"), &none, Err("storage"));
    assert!(matches!(failed, Err(QueryError::Failed("body"))));
    let failed = block_facts(9, Ok(4), &none, Err("storage"));
    assert!(matches!(failed, Err(QueryError::Failed("storage"))));
    let missing = block_facts(9, Ok(4), &none, Ok(None));
    assert!(matches!(missing, Err(QueryError::Missing(MissingValue::Timestamp))));
}

#[test]
fn newcomer_gets_the_cached_updates_alone() {
    let (tx_a, mut rx_a) = unbounded_channel();
    let (tx_b, mut rx_b) = unbounded_channel();
    let mut clients = vec![tx_a];
    let first = update(1, 10);
    welcome(&mut clients, tx_b, &vec![&first], &vec!["p".to_string()]);
    assert_eq!(clients.len(), 2);
    assert_eq!(received(&mut rx_b), Some("event:consumptionUpdate\ndata:p\nid:1-10\n\n".to_string()));
    assert_eq!(received(&mut rx_b), None);
    assert_eq!(received(&mut rx_a), None);
    assert!(broadcast(&mut clients, &update(1, 11), &"q".to_string()).is_empty());
    assert!(received(&mut rx_a).is_some());
    assert!(received(&mut rx_b).is_some());
}

#[test]
fn replay_gives_what_was_sent_live() {
    let (tx_a, mut rx_a) = unbounded_channel();
    let mut clients = vec![tx_a];
    let mut cache = UpdateCache::new();
    let text: Result<String, &str> = Ok("same".to_string());
    publish(update(5, 6), text, &mut cache, &mut clients).unwrap();
    let (tx_b, mut rx_b) = unbounded_channel();
    welcome(&mut clients, tx_b, &cache.updates(), &vec!["same".to_string()]);
    let live = received(&mut rx_a);
    assert!(live.is_some());
    assert_eq!(live, received(&mut rx_b));
}

#[test]
fn caches_stay_in_step() {
    let mut timestamps = TimestampCache::new();
    let mut cache = UpdateCache::new();
    for (number, time) in [(10, 60_000), (11, 66_000), (20, 90_000)] {
        cache.store(note_new_block(&para(3), &facts(number, time), &report(), &mut timestamps));
        let last = timestamps.last_block(3);
        let kept = cache.updates()[0];
        assert_eq!(
            (kept.block_number, kept.timestamp, kept.block_time_ms),
            (last.block_number, last.timestamp, last.block_time_ms)
        );
    }
}

#[test]
fn blocks_that_cannot_follow_change_nothing() {
    let mut timestamps = TimestampCache::new();
    assert!(try_note_new_block(&para(3), &facts(10, 60_000), &report(), &mut timestamps).is_some());
    assert!(try_note_new_block(&para(3), &facts(11, 59_999), &report(), &mut timestamps).is_none());
    assert_eq!(timestamps.last_block(3).block_number, 10);
    let told = try_note_new_block(&para(3), &facts(u32::MAX, 70_000), &report(), &mut timestamps);
    assert_eq!(told.unwrap().block_time_ms, None);
    assert!(try_note_new_block(&para(3), &facts(12, 80_000), &report(), &mut timestamps).is_none());
    assert_eq!(timestamps.last_block(3).timestamp, 70_000);
}
