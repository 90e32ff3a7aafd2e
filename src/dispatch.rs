use vstd::prelude::*;
use crate::store::ChannelOutpoint;

verus! {

/// How many wake-ups the dispatch notification channel holds.
pub const NOTIFY_CAPACITY: u64 = 2;

/// The dispatch loop's notification channel: a signal either queues one wake-up or, when the
/// channel is full, is dropped, since a wake-up is already due.
pub struct Notifier {
    pub queued: u64,
    pub capacity: u64,
}

/// The notifier after `n` signals and no pass.
pub open spec fn after_signals(q: Notifier, n: nat) -> Notifier
    decreases n,
{
    if n == 0 {
        q
    } else {
        let p = after_signals(q, (n - 1) as nat);
        if p.queued < p.capacity { Notifier { queued: (p.queued + 1) as u64, ..p } } else { p }
    }
}

impl Notifier {
    pub fn new() -> (r: Notifier)
        ensures
            r.queued == 0,
            r.capacity == NOTIFY_CAPACITY,
    {
        Notifier { queued: 0, capacity: NOTIFY_CAPACITY }
    }

    /// Asks for a dispatch pass; `false` when the request folded into one already queued.
    pub fn signal(&mut self) -> (queued: bool)
        ensures
            *final(self) == after_signals(*old(self), 1),
            queued == (old(self).queued < old(self).capacity),
    {
        assert(after_signals(*self, 0) == *self);
        if self.queued < self.capacity {
            self.queued = self.queued + 1;
            true
        } else {
            false
        }
    }

    /// The loop wakes: `true` when a pass is due, which takes one queued wake-up.
    pub fn begin_pass(&mut self) -> (run: bool)
        ensures
            run == (old(self).queued > 0),
            final(self).capacity == old(self).capacity,
            final(self).queued == if run { old(self).queued - 1 } else { 0 },
    {
        if self.queued > 0 {
            self.queued = self.queued - 1;
            true
        } else {
            false
        }
    }
}

proof fn lemma_after_signals_bounds(q: Notifier, n: nat)
    requires
        q.queued <= q.capacity,
    ensures
        after_signals(q, n).capacity == q.capacity,
        after_signals(q, n).queued <= q.capacity,
        after_signals(q, n).queued >= q.queued,
        n >= 1 && q.capacity >= 1 ==> after_signals(q, n).queued >= 1,
        after_signals(q, n).queued == if q.queued + n < q.capacity { q.queued + n } else { q.capacity as int },
    decreases n,
{
    if n > 0 {
        lemma_after_signals_bounds(q, (n - 1) as nat);
    }
}

/// Coalescing: `n >= 1` signals to an idle notifier of capacity at least one leave between one
/// and `capacity` wake-ups queued, so the loop runs at least one pass for them and, counting
/// a pass that may already be running, at most `capacity + 1`.
pub proof fn lemma_signals_coalesce(n: nat, capacity: u64)
    requires
        n >= 1,
        capacity >= 1,
    ensures
        1 <= after_signals(Notifier { queued: 0, capacity }, n).queued <= capacity,
        n > capacity ==> after_signals(Notifier { queued: 0, capacity }, n).queued == capacity,
{
    lemma_after_signals_bounds(Notifier { queued: 0, capacity }, n);
}

/// An event that the channel-state engine hands the dispatch loop.
pub enum EngineEvent {
    /// A channel needs its funding transaction: pay `channel_value_satoshis` to `output_script`.
    FundingGenerationReady {
        temporary_channel_id: Vec<u8>,
        channel_value_satoshis: u64,
        output_script: Vec<u8>,
    },
    /// The funding transaction of this output may now be broadcast.
    FundingBroadcastSafe { funding_txo: ChannelOutpoint },
    /// A payment arrived; `preimage_known` says whether its preimage is on record.
    PaymentReceived { payment_hash: Vec<u8>, amount_msat: u64, preimage_known: bool },
    /// Pending HTLCs may be forwarded after this many milliseconds.
    PendingHTLCsForwardable { delay_millis: u64 },
    PaymentSent { payment_preimage: Vec<u8> },
    PaymentFailed { payment_hash: Vec<u8>, rejected_by_dest: bool },
    /// Outputs on chain that the node may spend.
    SpendableOutputs { count: u64 },
}

/// A side effect that a dispatch pass asks for, in order.
pub enum DispatchAction {
    /// Create, fund and sign a transaction paying `amount_sat` to `output_script`, hand it to
    /// the engine and add it to the pending broadcasts.
    FundChannel { temporary_channel_id: Vec<u8>, output_script: Vec<u8>, amount_sat: u64 },
    /// Take this output's funding transaction out of the pending broadcasts and broadcast it.
    BroadcastFunding { funding_txo: ChannelOutpoint },
    /// Claim the payment with the recorded preimage.
    ClaimFunds { payment_hash: Vec<u8> },
    /// Fail the payment back to its sender.
    FailBackwards { payment_hash: Vec<u8> },
    /// Signal the dispatch loop again.
    Resignal,
    /// Have the task spawner forward pending HTLCs, then signal, after this delay.
    ForwardLater { delay_millis: u64 },
    /// Write a log line and nothing else.
    Note,
    /// Persist the engine's snapshot (write, fsync, rename).
    Persist,
}

/// The actions that one event asks for.
pub open spec fn event_actions(e: EngineEvent) -> Seq<DispatchAction> {
    match e {
        EngineEvent::FundingGenerationReady { temporary_channel_id, channel_value_satoshis, output_script } =>
            seq![DispatchAction::FundChannel {
                temporary_channel_id,
                output_script,
                amount_sat: channel_value_satoshis,
            }],
        EngineEvent::FundingBroadcastSafe { funding_txo } =>
            seq![DispatchAction::BroadcastFunding { funding_txo }],
        EngineEvent::PaymentReceived { payment_hash, preimage_known, .. } =>
            if preimage_known {
                seq![DispatchAction::ClaimFunds { payment_hash }, DispatchAction::Resignal]
            } else {
                seq![DispatchAction::FailBackwards { payment_hash }, DispatchAction::Resignal]
            },
        EngineEvent::PendingHTLCsForwardable { delay_millis } =>
            seq![DispatchAction::ForwardLater { delay_millis }],
        _ => seq![DispatchAction::Note],
    }
}

/// The actions of the events `es`, in the events' order.
pub open spec fn events_actions(es: Seq<EngineEvent>) -> Seq<DispatchAction>
    decreases es.len(),
{
    if es.len() == 0 {
        Seq::empty()
    } else {
        events_actions(es.drop_last()) + event_actions(es.last())
    }
}

/// A whole pass: every event's actions in order, then one snapshot write if there was any
/// event.
pub open spec fn pass_actions(es: Seq<EngineEvent>) -> Seq<DispatchAction> {
    if es.len() == 0 {
        Seq::empty()
    } else {
        events_actions(es).push(DispatchAction::Persist)
    }
}

fn actions_for(e: EngineEvent) -> (r: Vec<DispatchAction>)
    ensures
        r@ == event_actions(e),
{
    match e {
        EngineEvent::FundingGenerationReady { temporary_channel_id, channel_value_satoshis, output_script } =>
            vec![DispatchAction::FundChannel {
                temporary_channel_id,
                output_script,
                amount_sat: channel_value_satoshis,
            }],
        EngineEvent::FundingBroadcastSafe { funding_txo } =>
            vec![DispatchAction::BroadcastFunding { funding_txo }],
        EngineEvent::PaymentReceived { payment_hash, preimage_known, .. } =>
            if preimage_known {
                vec![DispatchAction::ClaimFunds { payment_hash }, DispatchAction::Resignal]
            } else {
                vec![DispatchAction::FailBackwards { payment_hash }, DispatchAction::Resignal]
            },
        EngineEvent::PendingHTLCsForwardable { delay_millis } =>
            vec![DispatchAction::ForwardLater { delay_millis }],
        EngineEvent::PaymentSent { .. } => vec![DispatchAction::Note],
        EngineEvent::PaymentFailed { .. } => vec![DispatchAction::Note],
        EngineEvent::SpendableOutputs { .. } => vec![DispatchAction::Note],
    }
}

/// Plans one dispatch pass over the events that the engine returned, in their order.
pub fn plan_pass(events: Vec<EngineEvent>) -> (r: Vec<DispatchAction>)
    ensures
        r@ == pass_actions(events@),
{
    let ghost es = events@;
    let n = events.len();
    let mut out: Vec<DispatchAction> = Vec::new();
    let mut events = events;
    let mut done: usize = 0;
    while events.len() > 0
        invariant
            done + events@.len() == es.len(),
            es.len() == n,
            events@ == es.subrange(done as int, es.len() as int),
            out@ == events_actions(es.subrange(0, done as int)),
        decreases events.len(),
    {
        let e = events.remove(0);
        proof {
            assert(es.subrange(0, done + 1).drop_last() =~= es.subrange(0, done as int));
            assert(es.subrange(0, done + 1).last() == e);
            assert(events@ =~= es.subrange(done + 1, es.len() as int));
        }
        let mut acts = actions_for(e);
        out.append(&mut acts);
        done = done + 1;
    }
    assert(es.subrange(0, es.len() as int) =~= es);
    if n > 0 {
        out.push(DispatchAction::Persist);
    }
    out
}

/// A pass with no new engine event asks for nothing: no daemon call and no write.
pub proof fn lemma_idle_pass_is_noop(es: Seq<EngineEvent>)
    requires
        es.len() == 0,
    ensures
        pass_actions(es).len() == 0,
{
}

} // verus!
