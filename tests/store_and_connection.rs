use ln_node_core::connection::{ChunkAction, Connection, ReadOutcome, SocketDescriptor};
use ln_node_core::store::{load_records, plan_add_or_update, ChannelOutpoint, PriorFile, StoreError, StoreOp};

const TXID: &str = "00112233445566778899aabbccddeeff00112233445566778899aabbccddeeff";

#[test]
fn record_file_name_is_txid_underscore_index() {
    let op = ChannelOutpoint { txid: TXID.to_string(), index: 7 };
    assert_eq!(op.file_name(), format!("{}_7", TXID));
    let op = ChannelOutpoint { txid: TXID.to_string(), index: 65535 };
    assert_eq!(op.file_name(), format!("{}_65535", TXID));
}

#[test]
fn record_file_names_read_back() {
    let op = ChannelOutpoint::from_file_name(&format!("{}_12", TXID)).expect("a record name");
    assert_eq!(op.txid, TXID);
    assert_eq!(op.index, 12);
    let tmp = ChannelOutpoint::from_file_name(&format!("{}_3.tmp", TXID)).expect("a temp name");
    assert_eq!(tmp.index, 3);
    let bk = ChannelOutpoint::from_file_name(&format!("{}_0.bk", TXID)).expect("a backup name");
    assert_eq!(bk.index, 0);
    let round = ChannelOutpoint { txid: TXID.to_string(), index: 401 };
    let back = ChannelOutpoint::from_file_name(&round.file_name()).unwrap();
    assert_eq!((back.txid, back.index), (round.txid, round.index));
}

#[test]
fn other_names_are_skipped() {
    assert!(ChannelOutpoint::from_file_name("manager_data").is_none());
    assert!(ChannelOutpoint::from_file_name(&format!("{}_", TXID)).is_none());
    assert!(ChannelOutpoint::from_file_name(&format!("{}_65536", TXID)).is_none());
    assert!(ChannelOutpoint::from_file_name(&format!("{}_1x", TXID)).is_none());
    assert!(ChannelOutpoint::from_file_name(&format!("{}-1", TXID)).is_none());
    let bad_hex = format!("g{}_1", &TXID[1..]);
    assert!(ChannelOutpoint::from_file_name(&bad_hex).is_none());
    assert!(ChannelOutpoint::from_file_name(&format!("{}_1é", TXID)).is_none());
}

#[test]
fn update_of_existing_record_takes_a_backup() {
    let plan = plan_add_or_update(PriorFile::Regular).unwrap();
    assert_eq!(
        plan,
        vec![
            StoreOp::WriteTemp,
            StoreOp::CopyToBackup,
            StoreOp::RenameTempOverFile,
            StoreOp::RemoveBackup
        ]
    );
    let plan = plan_add_or_update(PriorFile::Unreadable).unwrap();
    assert_eq!(plan.len(), 4);
}

#[test]
fn first_record_needs_no_backup() {
    let plan = plan_add_or_update(PriorFile::Missing).unwrap();
    assert_eq!(plan, vec![StoreOp::WriteTemp, StoreOp::RenameTempOverFile]);
}

#[test]
fn record_path_that_is_not_a_file_fails_permanently() {
    assert_eq!(plan_add_or_update(PriorFile::NotAFile), Err(StoreError::PermanentFailure));
}

#[test]
fn paused_connection_buffers_one_chunk_and_resume_drains_it() {
    let mut c = Connection::new(4);
    match c.on_inbound_chunk(vec![1, 2, 3]) {
        ChunkAction::Deliver(b) => assert_eq!(b, vec![1, 2, 3]),
        _ => panic!("expected delivery"),
    }
    c.on_read_outcome(ReadOutcome::Pause);
    assert!(c.read_paused);
    match c.on_inbound_chunk(vec![4, 5]) {
        ChunkAction::Wait => {},
        _ => panic!("expected the chunk to be held"),
    }
    assert_eq!(c.pending_read, Some(vec![4, 5]));
    assert!(c.read_blocked);
    // resuming hands over exactly the held chunk, and the reader is still blocked
    assert_eq!(c.take_pending(), Some(vec![4, 5]));
    assert!(c.pending_read.is_none());
    assert!(c.read_blocked);
    assert!(c.finish_resume(Some(ReadOutcome::Continue)));
    assert!(!c.read_blocked && !c.read_paused);
    match c.on_inbound_chunk(vec![6]) {
        ChunkAction::Deliver(b) => assert_eq!(b, vec![6]),
        _ => panic!("expected delivery"),
    }
}

#[test]
fn engine_pausing_again_keeps_the_reader_blocked() {
    let mut c = Connection::new(1);
    c.on_read_outcome(ReadOutcome::Pause);
    let _ = c.on_inbound_chunk(vec![9]);
    let chunk = c.take_pending();
    assert_eq!(chunk, Some(vec![9]));
    assert!(!c.finish_resume(Some(ReadOutcome::Pause)));
    assert!(c.read_blocked);
    assert_eq!(c.take_pending(), None);
    assert!(c.finish_resume(None));
    assert!(!c.read_blocked);
}

#[test]
fn malformed_bytes_mark_the_connection_for_disconnect() {
    let mut c = Connection::new(2);
    c.on_read_outcome(ReadOutcome::Failed);
    assert!(c.disconnecting);
    match c.on_inbound_chunk(vec![1]) {
        ChunkAction::Stop => {},
        _ => panic!("expected the read loop to stop"),
    }
    assert!(!c.on_stream_closed());
}

#[test]
fn peer_closing_the_stream_is_reported_to_the_engine() {
    let mut c = Connection::new(3);
    assert!(c.on_stream_closed());
    assert!(c.disconnecting);
}

#[test]
fn engine_disconnect_is_reported_once_the_stream_ends() {
    let mut c = Connection::new(3);
    c.on_read_outcome(ReadOutcome::Failed);
    assert!(!c.notify_engine);
    c.disconnect_socket();
    assert!(c.disconnecting && c.read_paused && c.notify_engine);
    c.disconnect_socket();
    assert!(c.disconnecting && c.read_paused && c.notify_engine);
    assert!(c.on_stream_closed());
    assert!(!c.on_stream_closed());
}

#[test]
fn full_write_queue_returns_zero_and_pauses_until_flushed() {
    let mut c = Connection::new(5);
    assert_eq!(c.on_send(10, true), (10, false));
    assert_eq!(c.on_send(10, false), (0, true));
    assert!(c.read_paused && c.write_parked);
    assert_eq!(c.on_send(4, true), (0, false));
    c.on_flush_done();
    assert!(!c.write_parked);
    assert!(c.finish_resume(None));
    assert_eq!(c.on_send(4, true), (4, false));
}

#[test]
fn handles_compare_by_connection_identity() {
    let a = Connection::new(11);
    let mut b = Connection::new(11);
    let c = Connection::new(12);
    b.disconnect_socket();
    assert_eq!(SocketDescriptor::new(&a), SocketDescriptor::new(&b));
    assert!(SocketDescriptor::new(&a).same_connection(&SocketDescriptor::new(&b)));
    assert_ne!(SocketDescriptor::new(&a), SocketDescriptor::new(&c));
}

/// The record file and its siblings, in memory: `None` for a missing file.
#[derive(Clone, Debug, PartialEq)]
struct Files {
    main: Option<Vec<u8>>,
    temp: Option<Vec<u8>>,
    backup: Option<Vec<u8>>,
}

fn apply(files: &mut Files, op: StoreOp, record: &[u8]) {
    match op {
        StoreOp::WriteTemp => files.temp = Some(record.to_vec()),
        StoreOp::CopyToBackup => files.backup = files.main.clone(),
        StoreOp::RenameTempOverFile => files.main = files.temp.take(),
        StoreOp::RemoveBackup => files.backup = None,
    }
}

fn update(files: &mut Files, record: &[u8]) {
    let prior = if files.main.is_some() { PriorFile::Regular } else { PriorFile::Missing };
    for op in plan_add_or_update(prior).unwrap() {
        apply(files, op, record);
    }
}

#[test]
fn record_file_is_old_or_new_at_every_step() {
    let r1 = b"record one".to_vec();
    let r2 = b"record two, longer".to_vec();
    let start = Files { main: Some(r1.clone()), temp: None, backup: None };
    let plan = plan_add_or_update(PriorFile::Regular).unwrap();
    for k in 0..=plan.len() {
        let mut files = start.clone();
        for op in &plan[..k] {
            apply(&mut files, *op, &r2);
        }
        assert!(files.main == Some(r1.clone()) || files.main == Some(r2.clone()), "after {} steps", k);
        if (2..4).contains(&k) {
            assert_eq!(files.backup, Some(r1.clone()));
        }
    }
}

#[test]
fn two_updates_leave_the_second_record_alone() {
    let mut files = Files { main: None, temp: None, backup: None };
    update(&mut files, b"R1");
    update(&mut files, b"R2");
    assert_eq!(files, Files { main: Some(b"R2".to_vec()), temp: None, backup: None });
}

#[test]
fn loading_after_two_updates_returns_the_second_record_only() {
    let op = ChannelOutpoint { txid: TXID.to_string(), index: 3 };
    let mut files = Files { main: None, temp: None, backup: None };
    update(&mut files, b"R1");
    update(&mut files, b"R2");
    let name = op.file_name();
    let mut listing: Vec<(String, Option<Vec<u8>>)> = vec![("manager_data".to_string(), Some(b"x".to_vec()))];
    for (suffix, slot) in [("", files.main), (".tmp", files.temp), (".bk", files.backup)] {
        if let Some(bytes) = slot {
            listing.push((format!("{}{}", name, suffix), Some(bytes)));
        }
    }
    let loaded = load_records(listing);
    assert_eq!(loaded.len(), 1);
    assert_eq!(loaded[0].0.txid, TXID);
    assert_eq!(loaded[0].0.index, 3);
    assert_eq!(loaded[0].1, b"R2".to_vec());
}

#[test]
fn loading_skips_unreadable_and_foreign_files_in_order() {
    let listing = vec![
        (format!("{}_1", TXID), Some(vec![1])),
        (format!("{}_2.tmp", TXID), None),
        ("notes.txt".to_string(), Some(vec![9])),
        (format!("{}_4.bk", TXID), Some(vec![4])),
    ];
    let loaded = load_records(listing);
    let got: Vec<(u16, Vec<u8>)> = loaded.into_iter().map(|(op, b)| (op.index, b)).collect();
    assert_eq!(got, vec![(1, vec![1]), (4, vec![4])]);
}
