use vstd::prelude::*;

verus! {

/// How the channel-state engine took a chunk of inbound bytes.
#[derive(Clone, Copy, Debug, PartialEq, Eq, Structural)]
pub enum ReadOutcome {
    /// Accepted; keep reading.
    Continue,
    /// Accepted, but no more bytes until it asks for them.
    Pause,
    /// The bytes were malformed; the engine has dropped the peer.
    Failed,
}

/// What the read loop does with an inbound chunk.
pub enum ChunkAction {
    /// Hand these bytes to the engine's read hook.
    Deliver(Vec<u8>),
    /// The chunk is buffered: block until the connection is resumed.
    Wait,
    /// The connection is going away: stop reading.
    Stop,
}

/// The per-peer state shared by the read loop, the write side and the engine's handles.
pub struct Connection {
    /// Identity, fixed for the life of the connection.
    pub id: u64,
    /// The one inbound chunk held back while reads are paused.
    pub pending_read: Option<Vec<u8>>,
    /// The read loop is blocked until the connection is resumed.
    pub read_blocked: bool,
    pub read_paused: bool,
    /// The write queue was full and is being flushed in the background.
    pub write_parked: bool,
    /// The connection is being torn down; no more reads.
    pub disconnecting: bool,
    /// When the stream ends, the engine still has to be told.
    pub notify_engine: bool,
}

/// The connection and the read loop's action after an inbound chunk.
pub open spec fn after_chunk(c: Connection, chunk: Vec<u8>) -> (Connection, ChunkAction) {
    if c.disconnecting {
        (c, ChunkAction::Stop)
    } else if c.read_paused {
        (Connection { pending_read: Some(chunk), read_blocked: true, ..c }, ChunkAction::Wait)
    } else {
        (c, ChunkAction::Deliver(chunk))
    }
}

/// The connection, and the chunk taken out, when a resume starts.
pub open spec fn after_take(c: Connection) -> (Connection, Option<Vec<u8>>) {
    (Connection { pending_read: None, ..c }, c.pending_read)
}

/// The connection, and whether the read loop is released, when a resume ends with the
/// engine's verdict `outcome` on the chunk taken out (`None`: there was none).
pub open spec fn after_finish(c: Connection, outcome: Option<ReadOutcome>) -> (Connection, bool) {
    match outcome {
        Some(ReadOutcome::Pause) => (c, false),
        Some(ReadOutcome::Failed) => (Connection { disconnecting: true, notify_engine: false, ..c }, false),
        _ => (Connection { read_blocked: false, read_paused: false, ..c }, true),
    }
}

/// Whether the read loop may hand over a new chunk.
pub open spec fn accepts_reads(c: Connection) -> bool {
    !c.read_blocked
}

/// Single-chunk window: on a paused connection an inbound chunk is held, alone, and no new
/// chunk is taken until a resume has handed exactly that chunk to the engine; if the engine
/// takes it without pausing again, reads are accepted again with nothing held.
pub proof fn lemma_one_chunk_window(c: Connection, chunk: Vec<u8>, outcome: Option<ReadOutcome>)
    requires
        c.wf(),
        accepts_reads(c),
        c.read_paused,
        !c.disconnecting,
    ensures
        after_chunk(c, chunk).1 is Wait,
        after_chunk(c, chunk).0.pending_read == Some(chunk),
        !accepts_reads(after_chunk(c, chunk).0),
        after_take(after_chunk(c, chunk).0).1 == Some(chunk),
        after_take(after_chunk(c, chunk).0).0.pending_read is None,
        !accepts_reads(after_take(after_chunk(c, chunk).0).0),
        outcome is None || outcome == Some(ReadOutcome::Continue) ==> ({
            let done = after_finish(after_take(after_chunk(c, chunk).0).0, outcome);
            &&& done.1
            &&& accepts_reads(done.0)
            &&& done.0.pending_read is None
        }),
{
}

impl Connection {
    /// A buffered chunk always has the read loop blocked behind it.
    pub open spec fn wf(&self) -> bool {
        self.pending_read is Some ==> self.read_blocked
    }

    pub fn new(id: u64) -> (r: Connection)
        ensures
            r.wf(),
            r.id == id,
            r.pending_read is None,
            !r.read_blocked && !r.read_paused && !r.write_parked && !r.disconnecting,
            r.notify_engine,
    {
        Connection {
            id,
            pending_read: None,
            read_blocked: false,
            read_paused: false,
            write_parked: false,
            disconnecting: false,
            notify_engine: true,
        }
    }

    /// An inbound chunk arrives. While paused it is buffered, as the only one, and the read
    /// loop blocks; otherwise it goes to the engine.
    pub fn on_inbound_chunk(&mut self, chunk: Vec<u8>) -> (r: ChunkAction)
        requires
            old(self).wf(),
            accepts_reads(*old(self)),
        ensures
            final(self).wf(),
            (*final(self), r) == after_chunk(*old(self), chunk),
    {
        if self.disconnecting {
            ChunkAction::Stop
        } else if self.read_paused {
            self.pending_read = Some(chunk);
            self.read_blocked = true;
            ChunkAction::Wait
        } else {
            ChunkAction::Deliver(chunk)
        }
    }

    /// The engine's verdict on a delivered chunk.
    pub fn on_read_outcome(&mut self, outcome: ReadOutcome)
        requires
            old(self).wf(),
        ensures
            final(self).wf(),
            outcome is Continue ==> *final(self) == *old(self),
            outcome is Pause ==> *final(self) == (Connection { read_paused: true, ..*old(self) }),
            outcome is Failed ==> *final(self) == (Connection {
                disconnecting: true,
                notify_engine: false,
                ..*old(self)
            }),
    {
        match outcome {
            ReadOutcome::Continue => {},
            ReadOutcome::Pause => {
                self.read_paused = true;
            },
            ReadOutcome::Failed => {
                self.disconnecting = true;
                self.notify_engine = false;
            },
        }
    }

    /// Resuming takes out exactly the buffered chunk, to go to the engine before anything
    /// else; the read loop stays blocked until `finish_resume`.
    pub fn take_pending(&mut self) -> (r: Option<Vec<u8>>)
        requires
            old(self).wf(),
        ensures
            final(self).wf(),
            (*final(self), r) == after_take(*old(self)),
    {
        let mut taken: Option<Vec<u8>> = None;
        std::mem::swap(&mut taken, &mut self.pending_read);
        taken
    }

    /// Ends a resume: `outcome` is the engine's verdict on the chunk that `take_pending`
    /// gave, `None` when there was none. Unless the engine paused again or failed, reads
    /// resume and the blocked read loop is released; the result says whether it was.
    pub fn finish_resume(&mut self, outcome: Option<ReadOutcome>) -> (released: bool)
        requires
            old(self).wf(),
            old(self).pending_read is None,
        ensures
            final(self).wf(),
            (*final(self), released) == after_finish(*old(self), outcome),
    {
        match outcome {
            Some(ReadOutcome::Pause) => false,
            Some(ReadOutcome::Failed) => {
                self.disconnecting = true;
                self.notify_engine = false;
                false
            },
            _ => {
                self.read_blocked = false;
                self.read_paused = false;
                true
            },
        }
    }

    /// The engine sends `len` bytes; `queue_accepted` says whether the write queue took
    /// them without waiting (it is not tried while a flush is under way). Returns the bytes
    /// written, and whether a background flush must start; a full queue pauses reads until
    /// the flush is done.
    pub fn on_send(&mut self, len: usize, queue_accepted: bool) -> (r: (usize, bool))
        requires
            old(self).wf(),
        ensures
            final(self).wf(),
            !old(self).write_parked && queue_accepted ==> r == (len, false)
                && *final(self) == *old(self),
            old(self).write_parked ==> r == (0usize, false)
                && *final(self) == (Connection { read_paused: true, ..*old(self) }),
            !old(self).write_parked && !queue_accepted ==> r == (0usize, true)
                && *final(self) == (Connection { read_paused: true, write_parked: true, ..*old(self) }),
    {
        if self.write_parked {
            self.read_paused = true;
            (0, false)
        } else if queue_accepted {
            (len, false)
        } else {
            self.read_paused = true;
            self.write_parked = true;
            (0, true)
        }
    }

    /// The background flush is over: the write queue is usable again. Reads resume through
    /// `take_pending` and `finish_resume`.
    pub fn on_flush_done(&mut self)
        requires
            old(self).wf(),
        ensures
            final(self).wf(),
            !final(self).write_parked,
            *final(self) == (Connection { write_parked: false, ..*old(self) }),
    {
        self.write_parked = false;
    }

    /// The engine asks for the connection to be dropped: reads stop, and the engine is told
    /// of the disconnection once the stream has ended. A second call changes nothing.
    pub fn disconnect_socket(&mut self)
        requires
            old(self).wf(),
        ensures
            final(self).wf(),
            *final(self) == (Connection {
                disconnecting: true,
                read_paused: true,
                notify_engine: true,
                ..*old(self)
            }),
    {
        self.disconnecting = true;
        self.read_paused = true;
        self.notify_engine = true;
    }

    /// The inbound stream ended; the result says whether the engine must be told of the
    /// disconnection.
    pub fn on_stream_closed(&mut self) -> (tell_engine: bool)
        requires
            old(self).wf(),
        ensures
            final(self).wf(),
            tell_engine == old(self).notify_engine,
            *final(self) == (Connection { disconnecting: true, notify_engine: false, ..*old(self) }),
    {
        let tell = self.notify_engine;
        self.disconnecting = true;
        self.notify_engine = false;
        tell
    }
}

/// The engine's handle on a connection: equal to another handle exactly when both name the
/// same connection, whether or not its socket is still open.
#[derive(Clone, Copy, Debug, PartialEq, Eq, Structural, Hash)]
pub struct SocketDescriptor {
    pub id: u64,
}

impl SocketDescriptor {
    pub fn new(conn: &Connection) -> (r: SocketDescriptor)
        ensures
            r.id == conn.id,
    {
        SocketDescriptor { id: conn.id }
    }

    /// Whether two handles name the same connection.
    pub fn same_connection(&self, other: &SocketDescriptor) -> (r: bool)
        ensures
            r == (self.id == other.id),
    {
        self.id == other.id
    }
}

} // verus!
