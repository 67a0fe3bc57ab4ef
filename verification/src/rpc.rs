//! The aggregator RPC boundary.
//!
//! The coordinator and the aggregator sidecar call each other over a
//! reconnecting transport that the driver owns. What the library holds is the
//! semantics of that boundary: the coordinator-side service that receives
//! `end_training` calls and queues them for the request plane, and the
//! decision rule of the request multiplexer that serves one connection at a
//! time — when the active connection's stream ends, the next connection is
//! taken from the accept queue, and the process never gives up on a transient
//! failure.

use vstd::prelude::*;

verus! {

/// The identity of an aggregator-side client in an `end_training` call.
#[derive(Clone, Copy, PartialEq, Eq, Structural, Debug)]
pub struct ClientId {
    pub id: u64,
}

/// An incoming `end_training` RPC request.
pub type EndTrainingRequest = (ClientId, bool);

/// The RPC interface the aggregator calls on the coordinator.
pub trait Rpc {
    /// The requests received so far, oldest first.
    spec fn pending(&self) -> Seq<EndTrainingRequest>;

    /// Records that the training of `id` ended, with or without success.
    fn end_training(&mut self, id: ClientId, success: bool)
        ensures
            final(self).pending() == old(self).pending().push((id, success)),
    ;
}

/// The coordinator-side RPC server: queues each `end_training` call for the
/// request plane to drain.
#[derive(Debug)]
pub struct Server {
    pub end_training: Vec<EndTrainingRequest>,
}

impl Server {
    /// A fresh server with nothing pending.
    pub fn new() -> (r: Server)
        ensures
            r.pending() == Seq::<EndTrainingRequest>::empty(),
    {
        let r = Server { end_training: Vec::new() };
        proof {
            assert(r.end_training@ =~= Seq::<EndTrainingRequest>::empty());
        }
        r
    }

    /// Hands out everything received so far, oldest first, leaving the
    /// queue empty.
    pub fn drain(&mut self) -> (r: Vec<EndTrainingRequest>)
        ensures
            r@ == old(self).pending(),
            final(self).pending() == Seq::<EndTrainingRequest>::empty(),
    {
        let mut drained: Vec<EndTrainingRequest> = Vec::new();
        std::mem::swap(&mut drained, &mut self.end_training);
        proof {
            assert(self.end_training@ =~= Seq::<EndTrainingRequest>::empty());
        }
        drained
    }
}

impl Rpc for Server {
    open spec fn pending(&self) -> Seq<EndTrainingRequest> {
        self.end_training@
    }

    fn end_training(&mut self, id: ClientId, success: bool) {
        self.end_training.push((id, success));
    }
}

/// What the multiplexer's poll of its sources found. Events about the active
/// stream can only arrive while one is held; connection events only while
/// none is.
#[derive(Clone, Copy, PartialEq, Eq, Structural, Debug)]
pub enum MuxEvent {
    /// The active connection's stream yielded a request.
    CurrentItem(ClientId, bool),
    /// The active connection's stream ended.
    CurrentClosed,
    /// The active connection's stream has nothing yet.
    CurrentPending,
    /// A new connection arrived and its first poll yielded a request.
    IncomingItem(ClientId, bool),
    /// A new connection arrived already closed.
    IncomingClosed,
    /// A new connection arrived with nothing yet.
    IncomingPending,
    /// The accept queue itself closed.
    ConnectionsClosed,
}

/// What the multiplexer does next.
#[derive(Clone, Copy, PartialEq, Eq, Structural, Debug)]
pub enum MuxAction {
    /// Deliver this request to the consumer.
    Deliver(ClientId, bool),
    /// Nothing to do until a source wakes the task.
    Wait,
    /// Poll the accept queue (again) before sleeping.
    PollConnections,
    /// No connection will ever arrive again: end the request stream.
    Finished,
}

/// The request multiplexer over one-at-a-time aggregator connections: its
/// whole state is whether a connection's stream is currently held.
#[derive(Clone, Copy, PartialEq, Eq, Structural, Debug)]
pub struct RpcRequestsMux {
    pub connected: bool,
}

impl RpcRequestsMux {
    pub fn new() -> (r: RpcRequestsMux)
        ensures
            !r.connected,
    {
        RpcRequestsMux { connected: false }
    }

    /// The decision rule of the poll loop. A held stream is drained until it
    /// ends and then replaced by the next connection; a fresh connection that
    /// has nothing yet is adopted while the accept queue keeps being polled,
    /// so that the task is woken on either source; a closed accept queue ends
    /// the stream.
    ///
    /// The preconditions encode the serving policy: once a stream is
    /// adopted, connections that dial later wait in the accept queue until
    /// it ends. A transport that instead lets a later connection overtake an
    /// adopted but still-silent one delivers the same requests; only which
    /// connection serves next differs.
    pub fn poll_step(&mut self, event: MuxEvent) -> (r: MuxAction)
        requires
            match event {
                MuxEvent::CurrentItem(_, _) | MuxEvent::CurrentClosed | MuxEvent::CurrentPending => old(
                    self,
                ).connected,
                MuxEvent::IncomingItem(_, _) | MuxEvent::IncomingClosed | MuxEvent::IncomingPending
                    | MuxEvent::ConnectionsClosed => !old(self).connected,
            },
        ensures
            match event {
                MuxEvent::CurrentItem(id, success) => final(self).connected && r
                    == MuxAction::Deliver(id, success),
                MuxEvent::CurrentClosed => !final(self).connected && r
                    == MuxAction::PollConnections,
                MuxEvent::CurrentPending => final(self).connected && r == MuxAction::Wait,
                MuxEvent::IncomingItem(id, success) => final(self).connected && r
                    == MuxAction::Deliver(id, success),
                MuxEvent::IncomingClosed => !final(self).connected && r
                    == MuxAction::PollConnections,
                MuxEvent::IncomingPending => final(self).connected && r
                    == MuxAction::PollConnections,
                MuxEvent::ConnectionsClosed => !final(self).connected && r == MuxAction::Finished,
            },
    {
        match event {
            MuxEvent::CurrentItem(id, success) => MuxAction::Deliver(id, success),
            MuxEvent::CurrentClosed => {
                self.connected = false;
                MuxAction::PollConnections
            },
            MuxEvent::CurrentPending => MuxAction::Wait,
            MuxEvent::IncomingItem(id, success) => {
                self.connected = true;
                MuxAction::Deliver(id, success)
            },
            MuxEvent::IncomingClosed => MuxAction::PollConnections,
            MuxEvent::IncomingPending => {
                self.connected = true;
                MuxAction::PollConnections
            },
            MuxEvent::ConnectionsClosed => MuxAction::Finished,
        }
    }
}

} // verus!
