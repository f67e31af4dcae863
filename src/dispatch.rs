//! The server's dispatch decisions.
//!
//! The server waits on three sources at once: a cancellation signal, new
//! connections of the control channel, and datagrams of the audio channel.
//! What it does with each event is decided here; the waiting, the spawning
//! and the aborting of tasks are done by the caller.
use vstd::prelude::*;

use crate::codec::decode;
use crate::reassembly::{AudioProcessor, ChunkView, SenderId, flushed, ingested, samples_of, swept};

verus! {

/// Where the dispatch loop stands.
#[derive(Clone, Copy, Debug, PartialEq, Eq, Structural)]
pub enum LoopState {
    Running,
    ShuttingDown,
    Stopped,
}

/// What the loop's wait returned.
#[derive(Clone, Copy, Debug, PartialEq, Eq, Structural)]
pub enum LoopEvent {
    /// The cancellation signal fired.
    Cancelled,
    /// A connection of the control channel was accepted.
    ConnectionAccepted,
    /// A datagram arrived on the audio channel.
    DatagramReceived,
    /// Receiving a datagram failed.
    ReceiveFailed,
}

/// What the caller does next.
#[derive(Clone, Copy, Debug, PartialEq, Eq, Structural)]
pub enum LoopAction {
    /// Spawn a task that serves the accepted connection.
    SpawnConnectionTask,
    /// Spawn a task that ingests the datagram.
    SpawnDatagramTask,
    /// Wait for the next event.
    Continue,
    /// Abort every spawned task, then report it with `tasks_aborted`.
    AbortAll,
    /// Take no work: the loop is shutting down or stopped.
    Ignore,
}

/// The state after `e` in state `s`, and the action to take.
pub open spec fn transition(s: LoopState, e: LoopEvent) -> (LoopState, LoopAction) {
    match s {
        LoopState::Running => match e {
            LoopEvent::Cancelled => (LoopState::ShuttingDown, LoopAction::AbortAll),
            LoopEvent::ConnectionAccepted => (LoopState::Running, LoopAction::SpawnConnectionTask),
            LoopEvent::DatagramReceived => (LoopState::Running, LoopAction::SpawnDatagramTask),
            LoopEvent::ReceiveFailed => (LoopState::Running, LoopAction::Continue),
        },
        _ => (s, LoopAction::Ignore),
    }
}

/// Whether an action starts new work.
pub open spec fn spawns(a: LoopAction) -> bool {
    a == LoopAction::SpawnConnectionTask || a == LoopAction::SpawnDatagramTask
}

/// The state after the events `es`, one after the other, from `s`.
pub open spec fn run(s: LoopState, es: Seq<LoopEvent>) -> LoopState
    decreases es.len(),
{
    if es.len() == 0 {
        s
    } else {
        transition(run(s, es.drop_last()), es.last()).0
    }
}

/// The action taken on the last of the events `es`, from `s`.
pub open spec fn last_action(s: LoopState, es: Seq<LoopEvent>) -> LoopAction
    recommends
        es.len() > 0,
{
    transition(run(s, es.drop_last()), es.last()).1
}

/// Once cancellation has been received the loop never starts work again and
/// never runs again, whatever events follow.
pub proof fn lemma_no_work_after_cancel(s: LoopState, es: Seq<LoopEvent>)
    requires
        s != LoopState::Running,
    ensures
        run(s, es) != LoopState::Running,
        es.len() > 0 ==> !spawns(last_action(s, es)),
    decreases es.len(),
{
    if es.len() > 0 {
        lemma_no_work_after_cancel(s, es.drop_last());
    }
}

/// Cancellation received while running ends the running state at once: the
/// next action aborts every task, and no later event starts work.
pub proof fn lemma_cancel_stops(es: Seq<LoopEvent>)
    requires
        es.len() > 0,
        es[0] == LoopEvent::Cancelled,
    ensures
        run(LoopState::Running, es.take(1)) == LoopState::ShuttingDown,
        last_action(LoopState::Running, es.take(1)) == LoopAction::AbortAll,
        forall|k: int|
            1 < k <= es.len() ==> !spawns(#[trigger] last_action(LoopState::Running, es.take(k))),
{
    let first = es.take(1);
    assert(first.drop_last() =~= Seq::<LoopEvent>::empty());
    assert forall|k: int| 1 < k <= es.len() implies !spawns(
        #[trigger] last_action(LoopState::Running, es.take(k)),
    ) by {
        let t = es.take(k);
        let tail = t.subrange(1, k);
        lemma_run_split(LoopState::Running, t.drop_last(), 1);
        lemma_no_work_after_cancel(LoopState::ShuttingDown, t.drop_last().subrange(1, k - 1));
        assert(t.drop_last().take(1) =~= first);
    }
}

proof fn lemma_run_split(s: LoopState, es: Seq<LoopEvent>, k: int)
    requires
        0 <= k <= es.len(),
    ensures
        run(s, es) == run(run(s, es.take(k)), es.subrange(k, es.len() as int)),
    decreases es.len(),
{
    if es.len() > k {
        lemma_run_split(s, es.drop_last(), k);
        assert(es.drop_last().take(k) =~= es.take(k));
        assert(es.subrange(k, es.len() as int).drop_last() =~= es.drop_last().subrange(
            k,
            es.len() - 1,
        ));
    } else {
        assert(es.take(k) =~= es);
        assert(es.subrange(k, es.len() as int) =~= Seq::<LoopEvent>::empty());
    }
}

/// The dispatch loop's state.
pub struct DispatchLoop {
    state: LoopState,
}

impl DispatchLoop {
    /// A loop that is running.
    pub fn new() -> (r: Self)
        ensures
            r.state() == LoopState::Running,
    {
        DispatchLoop { state: LoopState::Running }
    }

    /// Where the loop stands.
    pub closed spec fn state(&self) -> LoopState {
        self.state
    }

    /// Where the loop stands.
    pub fn current(&self) -> (r: LoopState)
        ensures
            r == self.state(),
    {
        self.state
    }

    /// Whether the loop still takes work.
    pub fn accepts_work(&self) -> (r: bool)
        ensures
            r == (self.state() == LoopState::Running),
    {
        self.state == LoopState::Running
    }

    /// Decides what to do with an event.
    pub fn step(&mut self, event: LoopEvent) -> (r: LoopAction)
        ensures
            final(self).state() == transition(old(self).state(), event).0,
            r == transition(old(self).state(), event).1,
    {
        match self.state {
            LoopState::Running => match event {
                LoopEvent::Cancelled => {
                    self.state = LoopState::ShuttingDown;
                    LoopAction::AbortAll
                },
                LoopEvent::ConnectionAccepted => LoopAction::SpawnConnectionTask,
                LoopEvent::DatagramReceived => LoopAction::SpawnDatagramTask,
                LoopEvent::ReceiveFailed => LoopAction::Continue,
            },
            _ => LoopAction::Ignore,
        }
    }

    /// Records that every task has been aborted: a loop shutting down stops.
    pub fn tasks_aborted(&mut self)
        ensures
            old(self).state() == LoopState::ShuttingDown ==> final(self).state()
                == LoopState::Stopped,
            old(self).state() != LoopState::ShuttingDown ==> final(self).state() == old(
                self,
            ).state(),
    {
        if self.state == LoopState::ShuttingDown {
            self.state = LoopState::Stopped;
        }
    }
}

/// The audio channel's receiving side: forgets senders that fell silent,
/// then ingests each datagram.
pub struct UdpHandler {
    audio_processor: AudioProcessor,
}

impl View for UdpHandler {
    type V = Map<SenderId, ChunkView>;

    closed spec fn view(&self) -> Map<SenderId, ChunkView> {
        self.audio_processor@
    }
}

impl UdpHandler {
    /// The handler's buffers are well formed.
    pub closed spec fn wf(&self) -> bool {
        self.audio_processor.wf()
    }

    /// A handler with no sender buffered.
    pub fn new() -> (r: Self)
        ensures
            r.wf(),
            r@ == Map::<SenderId, ChunkView>::empty(),
    {
        UdpHandler { audio_processor: AudioProcessor::new() }
    }

    /// The buffers of all senders.
    pub fn audio_processor(&self) -> (r: &AudioProcessor)
        requires
            self.wf(),
        ensures
            r.wf(),
            r@ == self@,
    {
        &self.audio_processor
    }

    /// Takes a datagram from `addr` received at `now`: first every sender
    /// silent for the time limit is forgotten, then the datagram is ingested.
    /// Returns the buffer to persist, if the datagram completed one.
    pub fn process_packet(&mut self, data: &[u8], addr: SenderId, now: u64) -> (r: Option<
        Vec<u32>,
    >)
        requires
            old(self).wf(),
        ensures
            final(self).wf(),
            final(self)@ == ingested(swept(old(self)@, now), addr, decode(data@), now),
            samples_of(r) == flushed(swept(old(self)@, now), addr, decode(data@)),
    {
        self.audio_processor.cleanup_old_chunks(now);
        self.audio_processor.process_packet(addr, data, now)
    }
}

} // verus!
