use vstd::prelude::*;

verus! {

/// A block header as the chain daemon reports it (`getblockheader`, verbose form).
/// The genesis block has an empty `previousblockhash`.
#[derive(Debug)]
pub struct GetHeaderResponse {
    pub hash: String,
    pub confirmations: u64,
    pub height: u32,
    pub version: u32,
    pub merkleroot: String,
    pub time: u32,
    pub nonce: u32,
    pub bits: String,
    pub previousblockhash: String,
}

impl GetHeaderResponse {
    /// A field-for-field copy.
    pub fn duplicate(&self) -> (r: GetHeaderResponse)
        ensures
            r == *self,
    {
        GetHeaderResponse {
            hash: self.hash.clone(),
            confirmations: self.confirmations,
            height: self.height,
            version: self.version,
            merkleroot: self.merkleroot.clone(),
            time: self.time,
            nonce: self.nonce,
            bits: self.bits.clone(),
            previousblockhash: self.previousblockhash.clone(),
        }
    }
}

/// One block-listener notification produced while resolving a change of best block.
#[derive(Debug)]
pub enum ForkStep {
    /// Unwind this block of the previously best chain.
    DisconnectBlock(GetHeaderResponse),
    /// Apply the block with this hash, at this height, of the new best chain.
    ConnectBlock(String, u32),
}

impl ForkStep {
    pub fn duplicate(&self) -> (r: ForkStep)
        ensures
            r == *self,
    {
        match self {
            ForkStep::DisconnectBlock(h) => ForkStep::DisconnectBlock(h.duplicate()),
            ForkStep::ConnectBlock(hash, height) => ForkStep::ConnectBlock(hash.clone(), *height),
        }
    }
}

/// Where a fork walk stands. Headers named `conn` / `child` are the lowest block of the new
/// chain already emitted as a connect; `stale` is the highest block of the previous chain not
/// yet emitted as a disconnect.
pub enum WalkPhase {
    /// Waiting for the header of the new best block.
    AwaitNewTip,
    /// Waiting for the header of the previous best block.
    AwaitOldTip { conn: GetHeaderResponse },
    /// `child` was just disconnected; waiting for the header of its parent.
    AwaitOldParent { conn: GetHeaderResponse, child: GetHeaderResponse },
    /// The parent of `child` was just emitted as a connect; waiting for its header.
    AwaitNewParent { child: GetHeaderResponse, stale: GetHeaderResponse },
    /// The fork point was found (or the genesis bound reached): the steps are complete.
    Finished,
    /// The daemon failed or answered inconsistently: this pass is abandoned.
    Aborted,
}

/// The mathematical state of a fork walk.
pub struct WalkModel {
    pub old_hash: Seq<char>,
    pub new_hash: Seq<char>,
    pub phase: WalkPhase,
    pub steps: Seq<ForkStep>,
}

/// Resolves a change of best block from `old_hash` to `new_hash` into fork steps.
///
/// The walk asks for one header at a time (`pending_hash`); the caller fetches it from the
/// chain daemon and hands it back through `on_header` (`None` when the call failed).
pub struct ForkWalk {
    pub old_hash: String,
    pub new_hash: String,
    pub phase: WalkPhase,
    pub steps: Vec<ForkStep>,
}

impl View for ForkWalk {
    type V = WalkModel;

    open spec fn view(&self) -> WalkModel {
        WalkModel {
            old_hash: self.old_hash@,
            new_hash: self.new_hash@,
            phase: self.phase,
            steps: self.steps@,
        }
    }
}

/// The initial state: nothing to do when both hashes agree.
pub open spec fn walk_start(old_hash: Seq<char>, new_hash: Seq<char>) -> WalkModel {
    WalkModel {
        old_hash,
        new_hash,
        phase: if old_hash == new_hash { WalkPhase::Finished } else { WalkPhase::AwaitNewTip },
        steps: Seq::empty(),
    }
}

/// One decision, with `conn` the lowest connected block of the new chain and `stale` the
/// highest block of the previous chain still in place.
pub open spec fn walk_decide(m: WalkModel, conn: GetHeaderResponse, stale: GetHeaderResponse) -> WalkModel {
    if stale.hash@ == conn.previousblockhash@ {
        WalkModel { phase: WalkPhase::Finished, ..m }
    } else if stale.height >= conn.height && stale.height > 1 {
        WalkModel {
            phase: WalkPhase::AwaitOldParent { conn, child: stale },
            steps: m.steps.push(ForkStep::DisconnectBlock(stale)),
            ..m
        }
    } else if stale.height >= conn.height || conn.height <= 1 {
        // the genesis bound: nothing below height 1 is walked
        WalkModel { phase: WalkPhase::Finished, ..m }
    } else {
        WalkModel {
            phase: WalkPhase::AwaitNewParent { child: conn, stale },
            steps: m.steps.push(
                ForkStep::ConnectBlock(conn.previousblockhash, (conn.height - 1) as u32),
            ),
            ..m
        }
    }
}

/// Whether `hdr` is the parent that a walk waiting on `child` asked for.
pub open spec fn is_parent_reply(hdr: GetHeaderResponse, child: GetHeaderResponse) -> bool {
    hdr.hash@ == child.previousblockhash@ && hdr.height + 1 == child.height
}

/// The state after the daemon's answer `reply` to the pending request.
pub open spec fn walk_next(m: WalkModel, reply: Option<GetHeaderResponse>) -> WalkModel {
    let aborted = WalkModel { phase: WalkPhase::Aborted, ..m };
    match m.phase {
        WalkPhase::AwaitNewTip => {
            if reply is Some && reply->0.hash@ == m.new_hash {
                let hdr = reply->0;
                let steps = m.steps.push(ForkStep::ConnectBlock(hdr.hash, hdr.height));
                if hdr.previousblockhash@ == m.old_hash || hdr.height <= 1 {
                    WalkModel { phase: WalkPhase::Finished, steps, ..m }
                } else {
                    WalkModel { phase: WalkPhase::AwaitOldTip { conn: hdr }, steps, ..m }
                }
            } else {
                aborted
            }
        },
        WalkPhase::AwaitOldTip { conn } => {
            if reply is Some && reply->0.hash@ == m.old_hash {
                walk_decide(m, conn, reply->0)
            } else {
                aborted
            }
        },
        WalkPhase::AwaitOldParent { conn, child } => {
            if reply is Some && is_parent_reply(reply->0, child) {
                walk_decide(m, conn, reply->0)
            } else {
                aborted
            }
        },
        WalkPhase::AwaitNewParent { child, stale } => {
            if reply is Some && is_parent_reply(reply->0, child) {
                walk_decide(m, reply->0, stale)
            } else {
                aborted
            }
        },
        _ => m,
    }
}

/// The hash whose header the walk waits for, if it waits.
pub open spec fn waiting_for(m: WalkModel) -> Option<Seq<char>> {
    match m.phase {
        WalkPhase::AwaitNewTip => Some(m.new_hash),
        WalkPhase::AwaitOldTip { .. } => Some(m.old_hash),
        WalkPhase::AwaitOldParent { child, .. } => Some(child.previousblockhash@),
        WalkPhase::AwaitNewParent { child, .. } => Some(child.previousblockhash@),
        _ => None,
    }
}

impl ForkWalk {
    pub fn new(old_hash: String, new_hash: String) -> (r: ForkWalk)
        ensures
            r@ == walk_start(old_hash@, new_hash@),
    {
        let phase = if old_hash == new_hash { WalkPhase::Finished } else { WalkPhase::AwaitNewTip };
        ForkWalk { old_hash, new_hash, phase, steps: Vec::new() }
    }

    /// The hash of the header to fetch next, or `None` once the walk is over.
    pub fn pending_hash(&self) -> (r: Option<String>)
        ensures
            r is Some == waiting_for(self@) is Some,
            r is Some ==> r->0@ == waiting_for(self@)->0,
    {
        match &self.phase {
            WalkPhase::AwaitNewTip => Some(self.new_hash.clone()),
            WalkPhase::AwaitOldTip { .. } => Some(self.old_hash.clone()),
            WalkPhase::AwaitOldParent { child, .. } => Some(child.previousblockhash.clone()),
            WalkPhase::AwaitNewParent { child, .. } => Some(child.previousblockhash.clone()),
            _ => None,
        }
    }

    pub fn is_finished(&self) -> (r: bool)
        ensures
            r == (self@.phase is Finished),
    {
        match self.phase {
            WalkPhase::Finished => true,
            _ => false,
        }
    }

    pub fn is_aborted(&self) -> (r: bool)
        ensures
            r == (self@.phase is Aborted),
    {
        match self.phase {
            WalkPhase::Aborted => true,
            _ => false,
        }
    }

    fn decide(&mut self, conn: GetHeaderResponse, stale: GetHeaderResponse)
        ensures
            final(self)@ == walk_decide(old(self)@, conn, stale),
    {
        if stale.hash == conn.previousblockhash {
            self.phase = WalkPhase::Finished;
        } else if stale.height >= conn.height && stale.height > 1 {
            self.steps.push(ForkStep::DisconnectBlock(stale.duplicate()));
            self.phase = WalkPhase::AwaitOldParent { conn, child: stale };
        } else if stale.height >= conn.height || conn.height <= 1 {
            self.phase = WalkPhase::Finished;
        } else {
            self.steps.push(ForkStep::ConnectBlock(conn.previousblockhash.clone(), conn.height - 1));
            self.phase = WalkPhase::AwaitNewParent { child: conn, stale };
        }
    }

    /// Hands the walk the daemon's answer to its pending request.
    pub fn on_header(&mut self, reply: Option<GetHeaderResponse>)
        ensures
            final(self)@ == walk_next(old(self)@, reply),
    {
        let mut phase = WalkPhase::Aborted;
        std::mem::swap(&mut phase, &mut self.phase);
        match reply {
            None => {
                match phase {
                    WalkPhase::Finished => { self.phase = WalkPhase::Finished; },
                    _ => {},
                }
            },
            Some(hdr) => {
                match phase {
                    WalkPhase::AwaitNewTip => {
                        if hdr.hash == self.new_hash {
                            self.steps.push(ForkStep::ConnectBlock(hdr.hash.clone(), hdr.height));
                            if hdr.previousblockhash == self.old_hash || hdr.height <= 1 {
                                self.phase = WalkPhase::Finished;
                            } else {
                                self.phase = WalkPhase::AwaitOldTip { conn: hdr };
                            }
                        }
                    },
                    WalkPhase::AwaitOldTip { conn } => {
                        if hdr.hash == self.old_hash {
                            self.decide(conn, hdr);
                        }
                    },
                    WalkPhase::AwaitOldParent { conn, child } => {
                        if hdr.hash == child.previousblockhash && hdr.height < u32::MAX
                            && hdr.height + 1 == child.height {
                            self.decide(conn, hdr);
                        }
                    },
                    WalkPhase::AwaitNewParent { child, stale } => {
                        if hdr.hash == child.previousblockhash && hdr.height < u32::MAX
                            && hdr.height + 1 == child.height {
                            self.decide(hdr, stale);
                        }
                    },
                    WalkPhase::Finished => { self.phase = WalkPhase::Finished; },
                    WalkPhase::Aborted => {},
                }
            },
        }
    }
}


/// The genesis bound: a decision never asks for a header below height 1, and a connect step it
/// emits names a block at height 1 or more, with no underflow of `height - 1`.
pub proof fn lemma_walk_stays_above_genesis(m: WalkModel, conn: GetHeaderResponse, stale: GetHeaderResponse)
    ensures
        ({
            let d = walk_decide(m, conn, stale);
            &&& d.phase is AwaitOldParent ==> d.phase->AwaitOldParent_child.height >= 2
            &&& d.phase is AwaitNewParent ==> d.phase->AwaitNewParent_child.height >= 2
            &&& d.steps.len() > m.steps.len() && d.steps.last() is ConnectBlock
                ==> d.steps.last()->ConnectBlock_1 >= 1
        }),
{
}

/// The disconnect steps of `steps`, in their order.
pub open spec fn disconnect_steps(steps: Seq<ForkStep>) -> Seq<ForkStep>
    decreases steps.len(),
{
    if steps.len() == 0 {
        Seq::empty()
    } else {
        let rest = disconnect_steps(steps.drop_last());
        if steps.last() is DisconnectBlock {
            rest.push(steps.last())
        } else {
            rest
        }
    }
}

/// The connect steps of `steps`, in their order.
pub open spec fn connect_steps(steps: Seq<ForkStep>) -> Seq<ForkStep>
    decreases steps.len(),
{
    if steps.len() == 0 {
        Seq::empty()
    } else {
        let rest = connect_steps(steps.drop_last());
        if steps.last() is ConnectBlock {
            rest.push(steps.last())
        } else {
            rest
        }
    }
}

/// `s` back to front.
pub open spec fn reversed<A>(s: Seq<A>) -> Seq<A> {
    Seq::new(s.len(), |k: int| s[s.len() - 1 - k])
}

/// The order in which the block listener is fed the steps of a walk: every disconnect, from
/// the old tip down to the fork point, then every connect, from just above the fork point up
/// to the new tip.
pub open spec fn replay_sequence(steps: Seq<ForkStep>) -> Seq<ForkStep> {
    disconnect_steps(steps) + reversed(connect_steps(steps))
}

proof fn lemma_steps_prefix(s: Seq<ForkStep>, i: int)
    requires
        0 <= i < s.len(),
    ensures
        disconnect_steps(s.subrange(0, i + 1)) == (if s[i] is DisconnectBlock {
            disconnect_steps(s.subrange(0, i)).push(s[i])
        } else {
            disconnect_steps(s.subrange(0, i))
        }),
        connect_steps(s.subrange(0, i + 1)) == (if s[i] is ConnectBlock {
            connect_steps(s.subrange(0, i)).push(s[i])
        } else {
            connect_steps(s.subrange(0, i))
        }),
{
    assert(s.subrange(0, i + 1).drop_last() =~= s.subrange(0, i));
}

/// Puts the steps of a finished walk in the order in which they are applied.
pub fn replay_order(steps: &Vec<ForkStep>) -> (r: Vec<ForkStep>)
    ensures
        r@ == replay_sequence(steps@),
{
    let mut r: Vec<ForkStep> = Vec::new();
    let mut connects: Vec<ForkStep> = Vec::new();
    let mut i: usize = 0;
    while i < steps.len()
        invariant
            i <= steps@.len(),
            r@ == disconnect_steps(steps@.subrange(0, i as int)),
            connects@ == connect_steps(steps@.subrange(0, i as int)),
        decreases steps.len() - i,
    {
        proof {
            lemma_steps_prefix(steps@, i as int);
        }
        match &steps[i] {
            ForkStep::DisconnectBlock(_) => r.push(steps[i].duplicate()),
            ForkStep::ConnectBlock(..) => connects.push(steps[i].duplicate()),
        }
        i = i + 1;
    }
    assert(steps@.subrange(0, steps@.len() as int) =~= steps@);
    let ghost base = r@;
    let mut k: usize = connects.len();
    while k > 0
        invariant
            k <= connects@.len(),
            r@ =~= base + reversed(connects@).subrange(0, connects@.len() - k),
        decreases k,
    {
        k = k - 1;
        r.push(connects[k].duplicate());
    }
    assert(reversed(connects@).subrange(0, connects@.len() as int) =~= reversed(connects@));
    r
}


/// The walk driven to its end by a daemon that answers each request with `daemon(hash)`,
/// for at most `fuel` requests.
pub open spec fn walk_run(
    m: WalkModel,
    daemon: spec_fn(Seq<char>) -> Option<GetHeaderResponse>,
    fuel: nat,
) -> WalkModel
    decreases fuel,
{
    if fuel == 0 {
        m
    } else {
        match waiting_for(m) {
            Some(hash) => walk_run(walk_next(m, daemon(hash)), daemon, (fuel - 1) as nat),
            None => m,
        }
    }
}

/// `c` is a chain from genesis: heights count up from 0, each block names its predecessor,
/// and no hash occurs twice.
pub open spec fn is_chain(c: Seq<GetHeaderResponse>) -> bool {
    &&& c.len() >= 1
    &&& forall|i: int| 0 <= i < c.len() ==> #[trigger] c[i].height == i
    &&& forall|i: int| 1 <= i < c.len() ==> #[trigger] c[i].previousblockhash@ == c[i - 1].hash@
    &&& forall|i: int, j: int|
        0 <= i < c.len() && 0 <= j < c.len() && i != j ==> c[i].hash@ != c[j].hash@
}

/// `old_c` and `new_c` share their blocks up to height `h` (at least 1, the genesis bound)
/// and differ above it, and the new tip lies above `h`.
pub open spec fn forked_at(old_c: Seq<GetHeaderResponse>, new_c: Seq<GetHeaderResponse>, h: int) -> bool {
    &&& is_chain(old_c)
    &&& is_chain(new_c)
    &&& 1 <= h < old_c.len()
    &&& h + 1 < new_c.len()
    &&& forall|i: int| 0 <= i <= h ==> #[trigger] old_c[i] == new_c[i]
    &&& forall|i: int, j: int|
        h < i < old_c.len() && h < j < new_c.len() ==> old_c[i].hash@ != new_c[j].hash@
}

/// `daemon` gives the header of every block of `c` when asked for its hash.
pub open spec fn answers_for(
    daemon: spec_fn(Seq<char>) -> Option<GetHeaderResponse>,
    c: Seq<GetHeaderResponse>,
) -> bool {
    forall|i: int| 0 <= i < c.len() ==> daemon(#[trigger] c[i].hash@) == Some(c[i])
}

/// The disconnect steps of `steps` are the blocks of `c` from its tip down to height `lo`.
pub open spec fn disconnects_down_to(steps: Seq<ForkStep>, c: Seq<GetHeaderResponse>, lo: int) -> bool {
    disconnect_steps(steps) == Seq::new(
        (c.len() - lo) as nat,
        |k: int| ForkStep::DisconnectBlock(c[c.len() - 1 - k]),
    )
}

/// The connect steps of `steps` name the blocks of `c` (hash and height) from its tip down
/// to height `lo`.
pub open spec fn connects_down_to(steps: Seq<ForkStep>, c: Seq<GetHeaderResponse>, lo: int) -> bool {
    let cs = connect_steps(steps);
    &&& cs.len() == c.len() - lo
    &&& forall|k: int|
        0 <= k < cs.len() ==> {
            &&& #[trigger] cs[k] is ConnectBlock
            &&& cs[k]->ConnectBlock_0@ == c[c.len() - 1 - k].hash@
            &&& cs[k]->ConnectBlock_1 == c[c.len() - 1 - k].height
        }
}

proof fn lemma_push_step(s: Seq<ForkStep>, x: ForkStep)
    ensures
        disconnect_steps(s.push(x)) == (if x is DisconnectBlock {
            disconnect_steps(s).push(x)
        } else {
            disconnect_steps(s)
        }),
        connect_steps(s.push(x)) == (if x is ConnectBlock {
            connect_steps(s).push(x)
        } else {
            connect_steps(s)
        }),
{
    assert(s.push(x).drop_last() =~= s);
}

proof fn lemma_walk_from_decision(
    m: WalkModel,
    old_c: Seq<GetHeaderResponse>,
    new_c: Seq<GetHeaderResponse>,
    h: int,
    i: int,
    j: int,
    daemon: spec_fn(Seq<char>) -> Option<GetHeaderResponse>,
    fuel: nat,
)
    requires
        forked_at(old_c, new_c, h),
        answers_for(daemon, old_c),
        answers_for(daemon, new_c),
        h <= i < old_c.len(),
        h < j < new_c.len(),
        fuel >= (i - h) + (j - h),
        disconnects_down_to(m.steps, old_c, i + 1),
        connects_down_to(m.steps, new_c, j),
    ensures
        ({
            let r = walk_run(walk_decide(m, new_c[j], old_c[i]), daemon, fuel);
            &&& r.phase is Finished
            &&& disconnects_down_to(r.steps, old_c, h + 1)
            &&& connects_down_to(r.steps, new_c, h + 1)
        }),
    decreases fuel,
{
    let conn = new_c[j];
    let stale = old_c[i];
    let d = walk_decide(m, conn, stale);
    assert(conn.previousblockhash@ == new_c[j - 1].hash@);
    if i == h && j == h + 1 {
        assert(stale.hash@ == conn.previousblockhash@);
        assert(walk_run(d, daemon, fuel) == d);
    } else {
        // the previous-chain block and the parent of the new-chain block differ
        if j - 1 <= h {
            assert(new_c[j - 1] == old_c[j - 1]);
        }
        if i <= h {
            assert(old_c[i] == new_c[i]);
        }
        assert(stale.hash@ != conn.previousblockhash@);
        if stale.height >= conn.height {
            let nd = WalkModel {
                phase: WalkPhase::AwaitOldParent { conn, child: stale },
                steps: m.steps.push(ForkStep::DisconnectBlock(stale)),
                ..m
            };
            assert(d == nd);
            lemma_push_step(m.steps, ForkStep::DisconnectBlock(stale));
            assert(disconnects_down_to(nd.steps, old_c, i)) by {
                assert(disconnect_steps(nd.steps) =~= Seq::new(
                    (old_c.len() - i) as nat,
                    |k: int| ForkStep::DisconnectBlock(old_c[old_c.len() - 1 - k]),
                ));
            }
            assert(connect_steps(nd.steps) == connect_steps(m.steps));
            assert(stale.previousblockhash@ == old_c[i - 1].hash@);
            assert(daemon(old_c[i - 1].hash@) == Some(old_c[i - 1]));
            assert(walk_next(nd, daemon(stale.previousblockhash@)) == walk_decide(nd, conn, old_c[i - 1]));
            lemma_walk_from_decision(nd, old_c, new_c, h, i - 1, j, daemon, (fuel - 1) as nat);
        } else {
            assert(conn.height > 1);
            let nd = WalkModel {
                phase: WalkPhase::AwaitNewParent { child: conn, stale },
                steps: m.steps.push(
                    ForkStep::ConnectBlock(conn.previousblockhash, (conn.height - 1) as u32),
                ),
                ..m
            };
            assert(d == nd);
            lemma_push_step(m.steps, ForkStep::ConnectBlock(conn.previousblockhash, (conn.height - 1) as u32));
            assert(disconnect_steps(nd.steps) == disconnect_steps(m.steps));
            assert(connects_down_to(nd.steps, new_c, j - 1)) by {
                let cs = connect_steps(nd.steps);
                assert forall|k: int| 0 <= k < cs.len() implies {
                    &&& #[trigger] cs[k] is ConnectBlock
                    &&& cs[k]->ConnectBlock_0@ == new_c[new_c.len() - 1 - k].hash@
                    &&& cs[k]->ConnectBlock_1 == new_c[new_c.len() - 1 - k].height
                } by {
                    if k < cs.len() - 1 {
                        assert(cs[k] == connect_steps(m.steps)[k]);
                    }
                }
            }
            assert(daemon(new_c[j - 1].hash@) == Some(new_c[j - 1]));
            assert(walk_next(nd, daemon(conn.previousblockhash@)) == walk_decide(nd, new_c[j - 1], stale));
            lemma_walk_from_decision(nd, old_c, new_c, h, i, j - 1, daemon, (fuel - 1) as nat);
        }
    }
}

/// Fork finding is exact: when the previous best chain `old_c` and the new best chain `new_c`
/// share their blocks up to height `h` and the daemon knows both chains, a walk from the old
/// tip to the new tip finishes, and its disconnect steps are the old chain's blocks from its tip
/// down to `h + 1`, its connect steps the new chain's blocks from its tip down to `h + 1`, each
/// in height-descending order, once each.
pub proof fn lemma_fork_walk_exact(
    old_c: Seq<GetHeaderResponse>,
    new_c: Seq<GetHeaderResponse>,
    h: int,
    daemon: spec_fn(Seq<char>) -> Option<GetHeaderResponse>,
)
    requires
        forked_at(old_c, new_c, h),
        answers_for(daemon, old_c),
        answers_for(daemon, new_c),
    ensures
        ({
            let r = walk_run(
                walk_start(old_c.last().hash@, new_c.last().hash@),
                daemon,
                (old_c.len() + new_c.len()) as nat,
            );
            &&& r.phase is Finished
            &&& disconnects_down_to(r.steps, old_c, h + 1)
            &&& connects_down_to(r.steps, new_c, h + 1)
        }),
{
    let a = old_c.len() - 1;
    let b = new_c.len() - 1;
    let fuel = (old_c.len() + new_c.len()) as nat;
    let tip = new_c[b];
    if a <= h {
        assert(old_c[a] == new_c[a]);
    }
    assert(old_c[a].hash@ != tip.hash@);
    let s0 = walk_start(old_c[a].hash@, tip.hash@);
    assert(daemon(tip.hash@) == Some(tip));
    let st = seq![ForkStep::ConnectBlock(tip.hash, tip.height)];
    assert(Seq::<ForkStep>::empty().push(ForkStep::ConnectBlock(tip.hash, tip.height)) == st);
    lemma_push_step(Seq::empty(), ForkStep::ConnectBlock(tip.hash, tip.height));
    assert(disconnect_steps(Seq::<ForkStep>::empty()) == Seq::<ForkStep>::empty());
    assert(connect_steps(Seq::<ForkStep>::empty()) == Seq::<ForkStep>::empty());
    assert(connects_down_to(st, new_c, b));
    assert(disconnects_down_to(st, old_c, a + 1)) by {
        assert(disconnect_steps(st) =~= Seq::new(
            (old_c.len() - (a + 1)) as nat,
            |k: int| ForkStep::DisconnectBlock(old_c[old_c.len() - 1 - k]),
        ));
    }
    assert(tip.previousblockhash@ == new_c[b - 1].hash@);
    if tip.previousblockhash@ == old_c[a].hash@ {
        // the new tip extends the old one
        if b - 1 <= h {
            assert(new_c[b - 1] == old_c[b - 1]);
        }
        if a <= h {
            assert(old_c[a] == new_c[a]);
        }
        assert(a == h && b == h + 1);
        let s1 = walk_next(s0, daemon(tip.hash@));
        assert(s1.steps == st);
        assert(walk_run(s1, daemon, (fuel - 1) as nat) == s1);
        assert(walk_run(s0, daemon, fuel) == walk_run(s1, daemon, (fuel - 1) as nat));
    } else {
        let s1 = WalkModel { phase: WalkPhase::AwaitOldTip { conn: tip }, steps: st, ..s0 };
        assert(walk_next(s0, daemon(tip.hash@)) == s1);
        assert(daemon(old_c[a].hash@) == Some(old_c[a]));
        assert(walk_next(s1, daemon(old_c[a].hash@)) == walk_decide(s1, tip, old_c[a]));
        lemma_walk_from_decision(s1, old_c, new_c, h, a, b, daemon, (fuel - 2) as nat);
        assert(walk_run(s1, daemon, (fuel - 1) as nat) == walk_run(
            walk_decide(s1, tip, old_c[a]),
            daemon,
            (fuel - 2) as nat,
        ));
        assert(walk_run(s0, daemon, fuel) == walk_run(s1, daemon, (fuel - 1) as nat));
    }
}


/// A walk between two equal hashes is finished before it asks anything, with no step, and
/// replaying those steps feeds the listener nothing.
pub proof fn lemma_same_tip_is_noop(hash: Seq<char>)
    ensures
        walk_start(hash, hash).phase is Finished,
        walk_start(hash, hash).steps.len() == 0,
        waiting_for(walk_start(hash, hash)) is None,
        replay_sequence(walk_start(hash, hash).steps).len() == 0,
{
    assert(disconnect_steps(Seq::<ForkStep>::empty()) == Seq::<ForkStep>::empty());
    assert(connect_steps(Seq::<ForkStep>::empty()) == Seq::<ForkStep>::empty());
}

/// The best block that the block listener has been brought up to.
pub struct ChainTracker {
    pub best: Option<String>,
}

impl ChainTracker {
    pub fn new() -> (r: ChainTracker)
        ensures
            r.best is None,
    {
        ChainTracker { best: None }
    }

    /// Takes the daemon's current best-block hash. The first hash seen is recorded and asks
    /// for nothing; a hash equal to the recorded one asks for nothing; any other hash starts a
    /// walk from the recorded hash to it. The record moves only through `commit`, so a pass
    /// that fails is retried from the same place on the next tick.
    pub fn observe(&mut self, new_hash: String) -> (r: Option<ForkWalk>)
        ensures
            old(self).best is None ==> r is None && final(self).best == Some(new_hash),
            old(self).best is Some ==> final(self).best == old(self).best,
            old(self).best is Some && old(self).best->0@ == new_hash@ ==> r is None,
            old(self).best is Some && old(self).best->0@ != new_hash@ ==> r is Some
                && r->0@ == walk_start(old(self).best->0@, new_hash@),
    {
        match &self.best {
            None => {
                self.best = Some(new_hash);
                None
            },
            Some(best) => {
                if *best == new_hash {
                    None
                } else {
                    Some(ForkWalk::new(best.clone(), new_hash))
                }
            },
        }
    }

    /// Records the target of a walk whose steps were all replayed.
    pub fn commit(&mut self, walk: &ForkWalk)
        requires
            walk@.phase is Finished,
        ensures
            final(self).best == Some(walk.new_hash),
    {
        self.best = Some(walk.new_hash.clone());
    }
}

} // verus!
