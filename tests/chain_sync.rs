use std::collections::HashMap;

use ln_node_core::chain::{replay_order, ChainTracker, ForkStep, ForkWalk, GetHeaderResponse};

fn header(tag: &str, height: u32, prev: &str) -> GetHeaderResponse {
    GetHeaderResponse {
        hash: format!("{}{}", tag, height),
        confirmations: 1,
        height,
        version: 1,
        merkleroot: String::new(),
        time: 0,
        nonce: 0,
        bits: String::from("1d00ffff"),
        previousblockhash: prev.to_string(),
    }
}

fn header_named(hash: &str, height: u32, prev: &str) -> GetHeaderResponse {
    let mut h = header("x", height, prev);
    h.hash = hash.to_string();
    h
}

/// A chain of `len` blocks sharing `common` blocks of tag "c", then blocks of `tag`.
fn chain(tag: &str, common: u32, len: u32) -> Vec<GetHeaderResponse> {
    let mut out: Vec<GetHeaderResponse> = Vec::new();
    for h in 0..len {
        let t = if h < common { "c" } else { tag };
        let prev = if h == 0 { String::new() } else { out[(h - 1) as usize].hash.clone() };
        out.push(header(t, h, &prev));
    }
    out
}

fn run_walk(old_tip: &str, new_tip: &str, known: &[GetHeaderResponse]) -> ForkWalk {
    let mut by_hash: HashMap<String, GetHeaderResponse> = HashMap::new();
    for h in known {
        by_hash.insert(h.hash.clone(), h.duplicate());
    }
    let mut walk = ForkWalk::new(old_tip.to_string(), new_tip.to_string());
    let mut guard = 0;
    while let Some(hash) = walk.pending_hash() {
        let reply = by_hash.get(&hash).map(|h| h.duplicate());
        walk.on_header(reply);
        guard += 1;
        assert!(guard < 10_000);
    }
    walk
}

fn describe(steps: &[ForkStep]) -> Vec<String> {
    steps
        .iter()
        .map(|s| match s {
            ForkStep::DisconnectBlock(h) => format!("D {} {}", h.hash, h.height),
            ForkStep::ConnectBlock(hash, height) => format!("C {} {}", hash, height),
        })
        .collect()
}

#[test]
fn best_block_moves_from_a100_to_b102_across_a_fork_at_99() {
    // both chains share c0..c99; the old one ends with A100, the new one with B100..B102
    let old = chain("A", 100, 101);
    let new = chain("B", 100, 103);
    let mut all = old.clone_headers();
    all.extend(new.clone_headers());
    let walk = run_walk(&old[100].hash, &new[102].hash, &all);
    assert!(walk.is_finished());
    assert_eq!(
        describe(&walk.steps),
        vec!["C B102 102", "C B101 101", "C B100 100", "D A100 100"]
    );
    let replay = describe(&replay_order(&walk.steps));
    assert_eq!(
        replay,
        vec!["D A100 100", "C B100 100", "C B101 101", "C B102 102"]
    );
}

trait CloneHeaders {
    fn clone_headers(&self) -> Vec<GetHeaderResponse>;
}

impl CloneHeaders for Vec<GetHeaderResponse> {
    fn clone_headers(&self) -> Vec<GetHeaderResponse> {
        self.iter().map(|h| h.duplicate()).collect()
    }
}

#[test]
fn emitted_steps_descend_within_each_kind() {
    let old = chain("A", 5, 9);
    let new = chain("B", 5, 7);
    let mut all = old.clone_headers();
    all.extend(new.clone_headers());
    let walk = run_walk(&old[8].hash, &new[6].hash, &all);
    assert!(walk.is_finished());
    let steps = describe(&walk.steps);
    let disconnects: Vec<&String> = steps.iter().filter(|s| s.starts_with('D')).collect();
    let connects: Vec<&String> = steps.iter().filter(|s| s.starts_with('C')).collect();
    assert_eq!(disconnects, vec!["D A8 8", "D A7 7", "D A6 6", "D A5 5"]);
    assert_eq!(connects, vec!["C B6 6", "C B5 5"]);
}

#[test]
fn one_new_block_is_the_fast_path() {
    let c = chain("c", 10, 11);
    let walk = run_walk(&c[9].hash, &c[10].hash, &c);
    assert!(walk.is_finished());
    assert_eq!(describe(&walk.steps), vec!["C c10 10"]);
}

#[test]
fn several_new_blocks_connect_in_ascending_order() {
    let c = chain("c", 10, 10);
    let walk = run_walk(&c[6].hash, &c[9].hash, &c);
    assert!(walk.is_finished());
    assert_eq!(describe(&replay_order(&walk.steps)), vec!["C c7 7", "C c8 8", "C c9 9"]);
}

#[test]
fn same_tip_replays_nothing() {
    let walk = ForkWalk::new("abc".to_string(), "abc".to_string());
    assert!(walk.is_finished());
    assert!(walk.pending_hash().is_none());
    assert!(replay_order(&walk.steps).is_empty());
}

#[test]
fn failed_fetch_aborts_the_pass() {
    let c = chain("c", 5, 5);
    let mut walk = ForkWalk::new(c[2].hash.clone(), c[4].hash.clone());
    assert_eq!(walk.pending_hash(), Some(c[4].hash.clone()));
    walk.on_header(None);
    assert!(walk.is_aborted());
    assert!(walk.pending_hash().is_none());
}

#[test]
fn header_for_another_hash_aborts_the_pass() {
    let c = chain("c", 5, 5);
    let mut walk = ForkWalk::new(c[2].hash.clone(), c[4].hash.clone());
    walk.on_header(Some(c[3].duplicate()));
    assert!(walk.is_aborted());
}

#[test]
fn tracker_records_first_hash_and_retries_until_commit() {
    let mut t = ChainTracker::new();
    assert!(t.observe("h1".to_string()).is_none());
    assert_eq!(t.best, Some("h1".to_string()));
    assert!(t.observe("h1".to_string()).is_none());
    let walk = t.observe("h2".to_string()).expect("a walk");
    assert_eq!(walk.old_hash, "h1");
    assert_eq!(walk.new_hash, "h2");
    // not committed: the next tick walks from h1 again
    assert_eq!(t.best, Some("h1".to_string()));
    let again = t.observe("h2".to_string()).expect("a walk");
    assert_eq!(again.old_hash, "h1");
    let mut done = ForkWalk::new("h1".to_string(), "h2".to_string());
    done.on_header(Some(header_named("h2", 5, "h1")));
    assert!(done.is_finished());
    t.commit(&done);
    assert_eq!(t.best, Some("h2".to_string()));
    assert!(t.observe("h2".to_string()).is_none());
}

#[test]
fn new_tip_at_height_one_stops_at_the_genesis_bound() {
    let old = chain("A", 1, 3);
    let new = chain("B", 1, 2);
    let mut walk = ForkWalk::new(old[2].hash.clone(), new[1].hash.clone());
    assert_eq!(walk.pending_hash(), Some(new[1].hash.clone()));
    walk.on_header(Some(new[1].duplicate()));
    assert!(walk.is_finished());
    assert!(walk.pending_hash().is_none());
    assert_eq!(describe(&walk.steps), vec!["C B1 1"]);
}
