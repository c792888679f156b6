use consumption_tracker::query::{authorities_num, require, timestamp_at, MissingValue, QueryError};
use consumption_tracker::tracker;
use consumption_tracker::types::{Parachain, Share};
use consumption_tracker::weights::{weight_consumption, BlockWeight, Weight};

fn sample_weight() -> BlockWeight {
    BlockWeight {
        normal: Weight { ref_time: 50, proof_size: 4 },
        operational: Weight { ref_time: 30, proof_size: 3 },
        mandatory: Weight { ref_time: 20, proof_size: 2 },
    }
}

fn sample_limit() -> Weight {
    Weight { ref_time: 100, proof_size: 10 }
}

#[test]
fn shares_of_each_class() {
    let report = weight_consumption::<String>(Ok(Some(sample_weight())), Ok(sample_limit()), 7).unwrap();
    assert_eq!(report.block_number, 7);
    assert_eq!(report.ref_time.normal, Share { consumed: 50, limit: 100 });
    assert_eq!(report.ref_time.operational, Share { consumed: 30, limit: 100 });
    assert_eq!(report.ref_time.mandatory, Share { consumed: 20, limit: 100 });
    assert_eq!(report.proof_size.normal, Share { consumed: 4, limit: 10 });
    assert_eq!(report.proof_size.operational, Share { consumed: 3, limit: 10 });
    assert_eq!(report.proof_size.mandatory, Share { consumed: 2, limit: 10 });
    assert_eq!(report.total_proof_size, Share { consumed: 9, limit: 10 });
}

#[test]
fn consumption_errors_in_order() {
    let failed = weight_consumption(Err("storage"), Err("constants"), 7);
    assert!(matches!(failed, Err(QueryError::Failed("storage"))));
    let missing = weight_consumption(Ok(None), Err("constants"), 7);
    assert!(matches!(missing, Err(QueryError::Missing(MissingValue::Consumption))));
    let unlimited = weight_consumption(Ok(Some(sample_weight())), Err("constants"), 7);
    assert!(matches!(unlimited, Err(QueryError::Failed("constants"))));
}

#[test]
fn websocket_consumption_and_update() {
    let consumption =
        tracker::weight_consumption::<String>(Ok(Some(sample_weight())), Ok(sample_limit()), 9).unwrap();
    assert_eq!(consumption.block_number, 9);
    assert_eq!(consumption.ref_time.1, Share { consumed: 30, limit: 100 });
    let para = Parachain {
        para_id: 2004,
        relay_chain: "Polkadot".to_string(),
        rpcs: vec!["wss://a".to_string()],
    };
    let update = tracker::note_new_block(&para, &consumption);
    assert_eq!(update.para_id, 2004);
    assert_eq!(update.ref_time.normal, Share { consumed: 50, limit: 100 });
    assert_eq!(update.ref_time.mandatory, Share { consumed: 20, limit: 100 });
    assert_eq!(update.proof_size.normal, Share { consumed: 4, limit: 10 });
    assert_eq!(update.proof_size.operational, Share { consumed: 3, limit: 10 });
}

#[test]
fn websocket_consumption_errors() {
    let failed = tracker::weight_consumption(Err("storage"), Ok(sample_limit()), 9);
    assert!(matches!(failed, Err(QueryError::Failed("storage"))));
    let missing = tracker::weight_consumption::<&str>(Ok(None), Ok(sample_limit()), 9);
    assert!(matches!(missing, Err(QueryError::Missing(MissingValue::Consumption))));
    let unlimited = tracker::weight_consumption(Ok(Some(sample_weight())), Err("constants"), 9);
    assert!(matches!(unlimited, Err(QueryError::Failed("constants"))));
}

#[test]
fn websocket_consumption_needs_no_total() {
    let mut weight = sample_weight();
    weight.normal.proof_size = u64::MAX;
    weight.operational.proof_size = u64::MAX;
    let consumption = tracker::weight_consumption::<String>(Ok(Some(weight)), Ok(sample_limit()), 1).unwrap();
    assert_eq!(consumption.proof_size.1, Share { consumed: u64::MAX, limit: 10 });
}

#[test]
fn timestamps() {
    assert!(matches!(timestamp_at::<&str>(Ok(Some(12_000))), Ok(12_000)));
    assert!(matches!(timestamp_at::<&str>(Ok(None)), Err(QueryError::Missing(MissingValue::Timestamp))));
    assert!(matches!(timestamp_at(Err("rpc")), Err(QueryError::Failed("rpc"))));
    assert!(matches!(
        require::<u8, &str>(Ok(None), MissingValue::Consumption),
        Err(QueryError::Missing(MissingValue::Consumption))
    ));
}

#[test]
fn missing_value_messages() {
    assert_eq!(MissingValue::Timestamp.message(), "Failed to query timestamp");
    assert_eq!(MissingValue::Consumption.message(), "Failed to query consumption");
}

#[test]
fn authorities() {
    assert_eq!(authorities_num::<u8, &str>(&Ok(Some(vec![1, 2, 3]))), 3);
    assert_eq!(authorities_num::<u8, &str>(&Ok(None)), 0);
    assert_eq!(authorities_num::<u8, &str>(&Err("no such entry")), 0);
}

#[test]
fn rpc_by_index() {
    let para = Parachain {
        para_id: 1,
        relay_chain: "Kusama".to_string(),
        rpcs: vec!["wss://a".to_string(), "wss://b".to_string()],
    };
    assert_eq!(para.rpc(1), Some(&"wss://b".to_string()));
    assert_eq!(para.rpc(2), None);
}
