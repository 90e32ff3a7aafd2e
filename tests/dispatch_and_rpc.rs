use ln_node_core::broadcast::Broadcaster;
use ln_node_core::dispatch::{plan_pass, DispatchAction, EngineEvent, Notifier, NOTIFY_CAPACITY};
use ln_node_core::fees::{fee_from_sat_per_kvb, fee_query_params, ConfirmationTarget, FeeEstimator};
use ln_node_core::funding::{funding_output_index, funding_outputs_param, signing_complete};
use ln_node_core::rpc::{judge_reply, quote, ErrorField, RPCClient, ReplyBody, ReplyVerdict};
use ln_node_core::store::ChannelOutpoint;
use ln_node_core::text::{hex_decode, hex_encode};
use ln_node_core::network::{get_network, Network, NetworkError};

#[test]
fn rapid_signals_coalesce_into_at_most_capacity_passes() {
    let mut n = Notifier::new();
    let mut queued = 0;
    for _ in 0..10 {
        if n.signal() {
            queued += 1;
        }
    }
    assert_eq!(queued, NOTIFY_CAPACITY);
    let mut passes = 0;
    while n.begin_pass() {
        passes += 1;
    }
    assert!(passes >= 1 && passes <= NOTIFY_CAPACITY + 1);
    assert_eq!(passes, 2);
}

#[test]
fn one_signal_gives_one_pass() {
    let mut n = Notifier::new();
    assert!(n.signal());
    assert!(n.begin_pass());
    assert!(!n.begin_pass());
}

#[test]
fn idle_pass_calls_nothing_and_writes_nothing() {
    assert!(plan_pass(Vec::new()).is_empty());
}

fn kinds(actions: &[DispatchAction]) -> Vec<&'static str> {
    actions
        .iter()
        .map(|a| match a {
            DispatchAction::FundChannel { .. } => "fund",
            DispatchAction::BroadcastFunding { .. } => "broadcast",
            DispatchAction::ClaimFunds { .. } => "claim",
            DispatchAction::FailBackwards { .. } => "fail",
            DispatchAction::Resignal => "resignal",
            DispatchAction::ForwardLater { .. } => "later",
            DispatchAction::Note => "note",
            DispatchAction::Persist => "persist",
        })
        .collect()
}

#[test]
fn pass_dispatches_events_in_order_then_persists() {
    let events = vec![
        EngineEvent::FundingGenerationReady {
            temporary_channel_id: vec![7; 32],
            channel_value_satoshis: 150_000,
            output_script: vec![0, 32],
        },
        EngineEvent::PaymentReceived { payment_hash: vec![1], amount_msat: 1000, preimage_known: true },
        EngineEvent::PaymentReceived { payment_hash: vec![2], amount_msat: 1000, preimage_known: false },
        EngineEvent::PendingHTLCsForwardable { delay_millis: 250 },
        EngineEvent::FundingBroadcastSafe {
            funding_txo: ChannelOutpoint { txid: "ab".repeat(32), index: 1 },
        },
        EngineEvent::PaymentSent { payment_preimage: vec![3] },
        EngineEvent::PaymentFailed { payment_hash: vec![4], rejected_by_dest: true },
        EngineEvent::SpendableOutputs { count: 2 },
    ];
    let actions = plan_pass(events);
    assert_eq!(
        kinds(&actions),
        vec![
            "fund", "claim", "resignal", "fail", "resignal", "later", "broadcast", "note", "note",
            "note", "persist"
        ]
    );
    match &actions[0] {
        DispatchAction::FundChannel { amount_sat, output_script, .. } => {
            assert_eq!(*amount_sat, 150_000);
            assert_eq!(*output_script, vec![0, 32]);
        },
        _ => panic!("expected funding"),
    }
    match &actions[5] {
        DispatchAction::ForwardLater { delay_millis } => assert_eq!(*delay_millis, 250),
        _ => panic!("expected a deferred forward"),
    }
}

#[test]
fn rpc_url_gives_basic_auth_and_uri() {
    let c = RPCClient::new("user:pass@127.0.0.1:18443").expect("a valid url");
    assert_eq!(c.basic_auth, "Basic dXNlcjpwYXNz");
    assert_eq!(c.uri, "http://127.0.0.1:18443");
    assert_eq!(c.next_id, 0);
}

#[test]
fn rpc_url_needs_exactly_one_at_sign() {
    assert!(RPCClient::new("127.0.0.1:18443").is_none());
    assert!(RPCClient::new("a@b@c").is_none());
}

#[test]
fn request_bodies_number_the_calls() {
    let mut c = RPCClient::new("u:p@h:1").unwrap();
    let first = c.request_body("getblockchaininfo", &Vec::new());
    assert_eq!(first, "{\"method\":\"getblockchaininfo\",\"params\":[],\"id\":0}");
    let params = vec![quote("00ff"), "0".to_string()];
    let second = c.request_body("getblock", &params);
    assert_eq!(second, "{\"method\":\"getblock\",\"params\":[\"00ff\",0],\"id\":1}");
    assert_eq!(c.next_id, 2);
}

#[test]
fn replies_are_judged_by_status_and_error_field() {
    let ok = ReplyBody::Object { error: ErrorField::Null, has_result: true };
    assert_eq!(judge_reply(200, ok), ReplyVerdict::UseResult);
    assert_eq!(judge_reply(401, ok), ReplyVerdict::Failed);
    assert_eq!(judge_reply(204, ok), ReplyVerdict::UseResult);
    assert_eq!(judge_reply(299, ok), ReplyVerdict::UseResult);
    assert_eq!(judge_reply(300, ok), ReplyVerdict::Failed);
    assert_eq!(judge_reply(199, ok), ReplyVerdict::Failed);
    assert_eq!(
        judge_reply(200, ReplyBody::Object { error: ErrorField::Reported, has_result: true }),
        ReplyVerdict::Failed
    );
    assert_eq!(
        judge_reply(200, ReplyBody::Object { error: ErrorField::Missing, has_result: true }),
        ReplyVerdict::NullResult
    );
    assert_eq!(
        judge_reply(200, ReplyBody::Object { error: ErrorField::Null, has_result: false }),
        ReplyVerdict::NullResult
    );
    assert_eq!(judge_reply(200, ReplyBody::Unparsable), ReplyVerdict::NullResult);
    assert_eq!(judge_reply(200, ReplyBody::NotAnObject), ReplyVerdict::NullResult);
}

#[test]
fn fee_estimates_have_a_floor() {
    let mut f = FeeEstimator::new();
    assert_eq!(f.get_est_sat_per_1000_weight(ConfirmationTarget::Normal), 253);
    f.update(ConfirmationTarget::HighPriority, fee_from_sat_per_kvb(100_000));
    assert_eq!(f.get_est_sat_per_1000_weight(ConfirmationTarget::HighPriority), 403);
    assert_eq!(f.get_est_sat_per_1000_weight(ConfirmationTarget::Background), 253);
    f.update(ConfirmationTarget::Background, 100);
    assert_eq!(f.get_est_sat_per_1000_weight(ConfirmationTarget::Background), 253);
    assert_eq!(fee_from_sat_per_kvb(1000), 7);
}

#[test]
fn fee_queries_per_target() {
    assert_eq!(fee_query_params(ConfirmationTarget::HighPriority), (6, "\"CONSERVATIVE\""));
    assert_eq!(fee_query_params(ConfirmationTarget::Normal), (18, "\"ECONOMICAL\""));
    assert_eq!(fee_query_params(ConfirmationTarget::Background), (144, "\"ECONOMICAL\""));
}

#[test]
fn funding_outputs_are_written_in_bitcoin() {
    assert_eq!(funding_outputs_param("bcrt1qxyz", 150_000), "{\"bcrt1qxyz\": 0.00150000}");
    assert_eq!(funding_outputs_param("a", 1_234_567_890), "{\"a\": 12.34567890}");
    assert_eq!(funding_outputs_param("a", 0), "{\"a\": 0.00000000}");
}

#[test]
fn funding_output_sits_beside_the_change() {
    assert_eq!(funding_output_index(0), Some(1));
    assert_eq!(funding_output_index(1), Some(0));
    assert_eq!(funding_output_index(-1), None);
    assert_eq!(funding_output_index(2), None);
}

#[test]
fn pending_broadcasts_insert_replace_and_remove() {
    let mut b = Broadcaster::new();
    b.insert("t1".to_string(), vec![0x01, 0xab]);
    b.insert("t2".to_string(), vec![0xff]);
    b.insert("t1".to_string(), vec![0x02]);
    assert_eq!(b.pending.len(), 2);
    assert_eq!(b.rebroadcast_params(), vec!["\"02\"".to_string(), "\"ff\"".to_string()]);
    assert_eq!(b.remove(&"t1".to_string()), Some(vec![0x02]));
    assert_eq!(b.remove(&"t1".to_string()), None);
    assert_eq!(b.rebroadcast_params(), vec!["\"ff\"".to_string()]);
}

#[test]
fn rebroadcast_writes_lowercase_hex() {
    let mut b = Broadcaster::new();
    b.insert("t".to_string(), vec![0x00, 0x1f, 0xa0, 0xff]);
    assert_eq!(b.rebroadcast_params(), vec!["\"001fa0ff\"".to_string()]);
}

#[test]
fn hex_round_trip() {
    let bytes = vec![0x00, 0x7f, 0x80, 0xff, 0x12];
    assert_eq!(hex_encode(&bytes), "007f80ff12");
    assert_eq!(hex_decode("007F80ff12"), Some(bytes));
    assert_eq!(hex_decode("abc"), None);
    assert_eq!(hex_decode("zz"), None);
    assert_eq!(hex_decode(""), Some(Vec::new()));
}

#[test]
fn daemon_chain_decides_the_network() {
    let test = "test".to_string();
    assert_eq!(get_network(&test, true, true), Ok(Network::Testnet));
    assert_eq!(get_network(&"regtest".to_string(), true, true), Ok(Network::Regtest));
    assert_eq!(get_network(&"main".to_string(), true, true), Err(NetworkError::Mainnet));
    assert_eq!(get_network(&"signet".to_string(), true, true), Err(NetworkError::UnknownChain));
    assert_eq!(get_network(&test, false, true), Err(NetworkError::NotSynced));
    assert_eq!(get_network(&test, true, false), Err(NetworkError::SegwitInactive));
}

#[test]
fn funding_goes_on_only_when_signing_completed() {
    assert!(signing_complete(Some(true)));
    assert!(!signing_complete(Some(false)));
    assert!(!signing_complete(None));
}
