//! What the router does, as transitions between states.
use vstd::prelude::*;
use vstd::utf8::encode_utf8;

use crate::envelope::EnvelopeView;
use crate::net::{text_of, ErrCode, MsgView, NetErrorView, Protocol, RouteInfo};
use crate::registry::{added, dropped, pulsed, Claims};

verus! {

/// How far the frontend has come in the frames of a message.
#[derive(Debug, Clone, Copy, PartialEq, Eq, Structural)]
pub enum SocketState {
    Ready,
    Hops,
    Control,
    Routing,
    Forwarding,
    Cleaning,
}

/// What the frontend waits for.
#[derive(Debug, Clone, Copy, PartialEq, Eq, Structural)]
pub enum FrontendWait {
    /// Nothing: it is not at work.
    Idle,
    /// The next frame.
    Frame,
    /// The message that a frame holds.
    Message,
    /// The content of a connection request.
    Connect,
    /// The content of a disconnection notice.
    Disconnect,
    /// Frames to be sent; `must` says that they cannot fail to be.
    Delivery { must: bool },
}

/// What the heartbeat handler waits for.
#[derive(Debug, Clone, Copy, PartialEq, Eq, Structural)]
pub enum HeartbeatWait {
    /// Nothing: it is not at work.
    Idle,
    /// The first frame, which says what is wanted.
    Command,
    /// The frame that holds a registration.
    Registration,
    /// The registration that a frame holds.
    Reading,
    /// The frame that names a living server.
    Pulse,
    /// Frames to be sent.
    Delivery,
}

/// What the service loop waits for.
#[derive(Debug, Clone, Copy, PartialEq, Eq, Structural)]
pub enum RunState {
    Idle,
    BindHeartbeat,
    BindFrontend,
    Announce,
    Poll,
    /// A heartbeat; `frontend` says that the frontend has a message as well.
    Heartbeat { frontend: bool },
    Frontend,
    Stopped,
}

/// An error that ends the router's work.
#[derive(Debug)]
pub enum RouterError {
    /// A socket refused. Contains its own words.
    Zmq(String),
    /// A message could not be read or written. Contains the codec's own words.
    Protobuf(String),
}

/// The last frame of a delivery.
pub ghost enum BodyView {
    Frame(Seq<u8>),
    ConnectOk,
    NetErr(NetErrorView),
}

/// Frames to be sent as one message: `frames` in order, then `body`.
#[verifier::ext_equal]
pub ghost struct DeliveryView {
    pub frames: Seq<Seq<u8>>,
    pub body: BodyView,
}

/// Something that happened at the frontend.
pub ghost enum FrontendEventView {
    Begin,
    Received(Seq<u8>),
    Parsed(MsgView),
    Unparsed,
    ConnectRead,
    DisconnectRead(Protocol, Seq<char>),
    Sent,
    Failed(RouterError),
}

/// What the frontend is to do.
pub ghost enum FrontendActionView {
    Recv,
    Parse(Seq<u8>),
    ReadConnect(Seq<u8>),
    ReadDisconnect(Seq<u8>),
    Deliver(DeliveryView, bool),
    Done(Result<(), RouterError>),
}

/// Something that happened at the heartbeat socket.
pub ghost enum HeartbeatEventView {
    Begin,
    Received(Seq<u8>),
    Registration(Protocol, Seq<char>, Seq<u32>),
    Sent,
    Failed(RouterError),
}

/// What the heartbeat handler is to do.
pub ghost enum HeartbeatActionView {
    Recv,
    ReadRegistration(Seq<u8>),
    Deliver(DeliveryView),
    Done(Result<(), RouterError>),
}

/// What the service loop is to do.
pub ghost enum RunActionView {
    BindHeartbeat(Seq<char>),
    BindFrontend(Seq<char>),
    Announce(Seq<char>, Seq<char>),
    Poll,
    ProcessHeartbeat,
    ProcessFrontend,
    Stop(RouterError),
}

/// Something that happened to the service loop.
#[derive(Debug)]
pub enum RunEvent {
    /// The loop starts.
    Begin,
    /// What was to be done is done.
    Done,
    /// Sockets have messages.
    Readable { heartbeat: bool, frontend: bool },
    /// What was to be done failed.
    Failed(RouterError),
}

/// The addresses that the router listens on.
pub ghost struct ConfigView {
    pub fe_addr: Seq<char>,
    pub hb_addr: Seq<char>,
}

/// The state of a router.
#[verifier::ext_equal]
pub ghost struct ServerView {
    pub config: ConfigView,
    pub servers: Claims,
    pub state: SocketState,
    pub envelope: EnvelopeView,
    pub frontend: FrontendWait,
    pub heartbeat: HeartbeatWait,
    pub running: RunState,
    pub shard_count: u32,
}

/// Whether `shard` is one that a message with this route information may go to: the one that
/// its hash decides, or any where it has no hash.
pub open spec fn picks(route: RouteInfo, shard_count: u32, shard: u32) -> bool {
    match route.hash {
        Some(hash) => shard == hash % (shard_count as u64),
        None => shard < shard_count,
    }
}

/// The frames that carry `body` back along `hops`.
pub open spec fn along(hops: Seq<Seq<u8>>, body: BodyView) -> DeliveryView {
    DeliveryView { frames: hops.push(Seq::empty()), body }
}

/// The frames that carry `body` to `endpoint`, with the way back along `hops`.
pub open spec fn addressed(endpoint: Seq<char>, hops: Seq<Seq<u8>>, body: BodyView) -> DeliveryView {
    along(seq![encode_utf8(endpoint)] + hops, body)
}

/// A refusal for want of a server.
pub open spec fn no_shard(trace: Seq<char>) -> BodyView {
    BodyView::NetErr(NetErrorView { code: ErrCode::NoShard, msg: trace })
}

/// Where a message goes: to the server that services the shard, or a refusal back to its sender
/// where there is none.
pub open spec fn routed(
    claims: Claims,
    protocol: Protocol,
    shard: u32,
    hops: Seq<Seq<u8>>,
    wire: Seq<u8>,
) -> DeliveryView {
    if !claims.contains_key(protocol) {
        along(hops, no_shard("rt:route:2"@))
    } else if !claims[protocol].contains_key(shard) {
        along(hops, no_shard("rt:route:1"@))
    } else {
        addressed(claims[protocol][shard].endpoint, hops, BodyView::Frame(wire))
    }
}

impl ServerView {
    /// What holds of a router at all times.
    pub open spec fn inv(self) -> bool {
        let hops = self.envelope.hops;
        &&& self.shard_count > 0
        &&& hops.len() <= self.envelope.limit
        &&& forall|i: int| 0 <= i < hops.len() ==> (#[trigger] hops[i]).len() > 0
        &&& self.state != SocketState::Cleaning
        &&& self.state == SocketState::Ready <==> hops.len() == 0
        &&& match self.frontend {
            FrontendWait::Idle => true,
            FrontendWait::Frame => self.state == SocketState::Ready || self.state
                == SocketState::Hops ==> !self.envelope.max_hops(),
            FrontendWait::Delivery { must } => self.state == SocketState::Routing || (self.state
                == SocketState::Forwarding && must),
            _ => self.state == SocketState::Routing,
        }
    }

    /// Whether `event` is one that the frontend waits for.
    pub open spec fn expects(self, event: FrontendEventView) -> bool {
        match event {
            FrontendEventView::Begin => self.frontend == FrontendWait::Idle,
            FrontendEventView::Received(_) => self.frontend == FrontendWait::Frame,
            FrontendEventView::Parsed(_) => self.frontend == FrontendWait::Message,
            FrontendEventView::Unparsed => self.frontend == FrontendWait::Message,
            FrontendEventView::ConnectRead => self.frontend == FrontendWait::Connect,
            FrontendEventView::DisconnectRead(_, _) => self.frontend == FrontendWait::Disconnect,
            FrontendEventView::Sent => self.frontend is Delivery,
            FrontendEventView::Failed(_) => self.frontend == FrontendWait::Frame || self.frontend
                == (FrontendWait::Delivery { must: false }),
        }
    }

    /// Asks for the next frame.
    pub open spec fn next_frame(self) -> (ServerView, FrontendActionView) {
        (ServerView { frontend: FrontendWait::Frame, ..self }, FrontendActionView::Recv)
    }

    /// Forgets the message and ends the work on it.
    pub open spec fn cleaned(self) -> (ServerView, FrontendActionView) {
        (
            ServerView {
                state: SocketState::Ready,
                envelope: self.envelope.emptied(),
                frontend: FrontendWait::Idle,
                ..self
            },
            FrontendActionView::Done(Ok(())),
        )
    }

    /// Ends the work on the message with an error; the message stays where it is.
    pub open spec fn failed(self, e: RouterError) -> (ServerView, FrontendActionView) {
        (
            ServerView { frontend: FrontendWait::Idle, ..self },
            FrontendActionView::Done(Err(e)),
        )
    }

    /// Has frames sent.
    pub open spec fn sending(self, delivery: DeliveryView, must: bool) -> (
        ServerView,
        FrontendActionView,
    ) {
        (
            ServerView { frontend: FrontendWait::Delivery { must }, ..self },
            FrontendActionView::Deliver(delivery, must),
        )
    }

    /// Goes on from the socket state: a message with too many hops is given up.
    pub open spec fn going_on(self) -> (ServerView, FrontendActionView) {
        match self.state {
            SocketState::Ready | SocketState::Hops => if self.envelope.max_hops() {
                self.cleaned()
            } else {
                self.next_frame()
            },
            SocketState::Cleaning => self.cleaned(),
            _ => self.next_frame(),
        }
    }

    /// Goes on from another socket state.
    pub open spec fn going_on_in(self, state: SocketState) -> (ServerView, FrontendActionView) {
        ServerView { state, ..self }.going_on()
    }

    /// Takes in a hop and goes on.
    pub open spec fn hopping(self, hop: Seq<u8>) -> (ServerView, FrontendActionView) {
        ServerView { envelope: self.envelope.with_hop(hop), ..self }.going_on_in(SocketState::Hops)
    }

    /// What a frame brings about. The first frames are hops, the first of them the sender's
    /// identity; an empty frame ends them; the control frame says whether a reply or a request
    /// follows.
    pub open spec fn received(self, frame: Seq<u8>) -> (ServerView, FrontendActionView) {
        match self.state {
            SocketState::Ready => if frame.len() == 0 {
                self.cleaned()
            } else {
                self.hopping(frame)
            },
            SocketState::Hops => if frame.len() == 0 {
                self.going_on_in(SocketState::Control)
            } else {
                self.hopping(frame)
            },
            SocketState::Control => if text_of(frame) == Some("RP"@) {
                self.going_on_in(SocketState::Forwarding)
            } else if text_of(frame) == Some("RQ"@) {
                self.going_on_in(SocketState::Routing)
            } else {
                self.cleaned()
            },
            SocketState::Forwarding => self.sending(
                along(self.envelope.hops.skip(1), BodyView::Frame(frame)),
                true,
            ),
            SocketState::Routing => if frame.len() == 0 {
                self.cleaned()
            } else {
                (
                    ServerView { frontend: FrontendWait::Message, ..self },
                    FrontendActionView::Parse(frame),
                )
            },
            SocketState::Cleaning => self.cleaned(),
        }
    }

    /// What a message to the router itself brings about.
    pub open spec fn handled(self, msg: MsgView) -> (ServerView, FrontendActionView) {
        if msg.message_id == "Connect"@ {
            (
                ServerView { frontend: FrontendWait::Connect, ..self },
                FrontendActionView::ReadConnect(msg.body),
            )
        } else if msg.message_id == "Disconnect"@ {
            (
                ServerView { frontend: FrontendWait::Disconnect, ..self },
                FrontendActionView::ReadDisconnect(msg.body),
            )
        } else {
            self.cleaned()
        }
    }

    /// The route information of the message in the envelope.
    pub open spec fn route(self) -> Option<RouteInfo> {
        match self.envelope.msg {
            Some(msg) => msg.route_info,
            None => None,
        }
    }

    /// What a message brings about; `shard` is the one picked for it.
    pub open spec fn parsed(self, msg: MsgView, shard: u32) -> (ServerView, FrontendActionView) {
        let holding = ServerView {
            envelope: EnvelopeView { msg: Some(msg), ..self.envelope },
            ..self
        };
        match msg.route_info {
            None => holding.cleaned(),
            Some(route) => if route.protocol == Protocol::RouteSrv {
                holding.handled(msg)
            } else {
                holding.sending(
                    routed(self.servers, route.protocol, shard, self.envelope.hops, msg.wire),
                    false,
                )
            },
        }
    }

    /// Whether `shard` may have been picked for the message that `event` brings.
    pub open spec fn may_pick(self, event: FrontendEventView, shard: u32) -> bool {
        match event {
            FrontendEventView::Parsed(msg) => match msg.route_info {
                Some(route) => picks(route, self.shard_count, shard),
                None => true,
            },
            _ => true,
        }
    }

    /// What an event at the frontend brings about; `shard` is the one picked for a message.
    pub open spec fn frontend_step(self, event: FrontendEventView, shard: u32) -> (
        ServerView,
        FrontendActionView,
    ) {
        match event {
            FrontendEventView::Begin => self.going_on(),
            FrontendEventView::Received(frame) => self.received(frame),
            FrontendEventView::Parsed(msg) => self.parsed(msg, shard),
            FrontendEventView::Unparsed => self.cleaned(),
            FrontendEventView::ConnectRead => self.sending(
                DeliveryView { frames: Seq::empty(), body: BodyView::ConnectOk },
                true,
            ),
            FrontendEventView::DisconnectRead(protocol, endpoint) => ServerView {
                servers: dropped(self.servers, protocol, endpoint),
                ..self
            }.cleaned(),
            FrontendEventView::Sent => self.cleaned(),
            FrontendEventView::Failed(e) => self.failed(e),
        }
    }

    /// Whether `event` is one that the heartbeat handler waits for.
    pub open spec fn expects_heartbeat(self, event: HeartbeatEventView) -> bool {
        match event {
            HeartbeatEventView::Begin => self.heartbeat == HeartbeatWait::Idle,
            HeartbeatEventView::Received(_) => self.heartbeat == HeartbeatWait::Command
                || self.heartbeat == HeartbeatWait::Registration || self.heartbeat
                == HeartbeatWait::Pulse,
            HeartbeatEventView::Registration(_, _, _) => self.heartbeat == HeartbeatWait::Reading,
            HeartbeatEventView::Sent => self.heartbeat == HeartbeatWait::Delivery,
            HeartbeatEventView::Failed(_) => self.heartbeat != HeartbeatWait::Idle,
        }
    }

    /// The heartbeat handler asks for a frame.
    pub open spec fn heartbeat_recv(self, wait: HeartbeatWait) -> (ServerView, HeartbeatActionView) {
        (ServerView { heartbeat: wait, ..self }, HeartbeatActionView::Recv)
    }

    /// The heartbeat handler has frames sent.
    pub open spec fn heartbeat_sends(self, frames: Seq<Seq<u8>>, text: Seq<char>) -> (
        ServerView,
        HeartbeatActionView,
    ) {
        (
            ServerView { heartbeat: HeartbeatWait::Delivery, ..self },
            HeartbeatActionView::Deliver(
                DeliveryView { frames, body: BodyView::Frame(encode_utf8(text)) },
            ),
        )
    }

    /// The heartbeat handler ends its work.
    pub open spec fn heartbeat_done(self, result: Result<(), RouterError>) -> (
        ServerView,
        HeartbeatActionView,
    ) {
        (
            ServerView { heartbeat: HeartbeatWait::Idle, ..self },
            HeartbeatActionView::Done(result),
        )
    }

    /// What the first frame of a heartbeat brings about: a registration or a pulse follows, or
    /// a new connection is asked to register.
    pub open spec fn commanded(self, frame: Seq<u8>) -> (ServerView, HeartbeatActionView) {
        match text_of(frame) {
            None => self.heartbeat_done(Ok(())),
            Some(text) => if text.len() == 0 {
                self.heartbeat_done(Ok(()))
            } else if text == "R"@ {
                self.heartbeat_recv(HeartbeatWait::Registration)
            } else if text == "P"@ {
                self.heartbeat_recv(HeartbeatWait::Pulse)
            } else {
                self.heartbeat_sends(seq![frame, Seq::empty()], "REG"@)
            },
        }
    }

    /// What an event at the heartbeat socket at time `now` brings about.
    pub open spec fn heartbeat_step(self, event: HeartbeatEventView, now: u64) -> (
        ServerView,
        HeartbeatActionView,
    ) {
        match event {
            HeartbeatEventView::Begin => self.heartbeat_recv(HeartbeatWait::Command),
            HeartbeatEventView::Received(frame) => match self.heartbeat {
                HeartbeatWait::Command => self.commanded(frame),
                HeartbeatWait::Registration => (
                    ServerView { heartbeat: HeartbeatWait::Reading, ..self },
                    HeartbeatActionView::ReadRegistration(frame),
                ),
                _ => match text_of(frame) {
                    Some(netid) => ServerView {
                        servers: pulsed(self.servers, netid, now),
                        ..self
                    }.heartbeat_done(Ok(())),
                    None => self.heartbeat_done(Ok(())),
                },
            },
            HeartbeatEventView::Registration(protocol, netid, shards) => ServerView {
                servers: added(self.servers, protocol, netid, shards, now),
                ..self
            }.heartbeat_sends(Seq::empty(), "REGOK"@),
            HeartbeatEventView::Sent => self.heartbeat_done(Ok(())),
            HeartbeatEventView::Failed(e) => self.heartbeat_done(Err(e)),
        }
    }

    /// Whether `event` is one that the service loop waits for.
    pub open spec fn expects_run(self, event: RunEvent) -> bool {
        match event {
            RunEvent::Begin => self.running == RunState::Idle || self.running == RunState::Stopped,
            RunEvent::Readable { .. } => self.running == RunState::Poll,
            RunEvent::Done => self.running != RunState::Idle && self.running != RunState::Poll
                && self.running != RunState::Stopped,
            RunEvent::Failed(_) => self.running != RunState::Idle && self.running
                != RunState::Announce && self.running != RunState::Stopped,
        }
    }

    /// The service loop goes over to `running`.
    pub open spec fn run_to(self, running: RunState, action: RunActionView) -> (
        ServerView,
        RunActionView,
    ) {
        (ServerView { running, ..self }, action)
    }

    /// What an event brings about in the service loop: both sockets are bound, then each round
    /// handles the heartbeat before the frontend. Only an error ends it.
    pub open spec fn run_step(self, event: RunEvent) -> (ServerView, RunActionView) {
        match event {
            RunEvent::Begin => self.run_to(
                RunState::BindHeartbeat,
                RunActionView::BindHeartbeat(self.config.hb_addr),
            ),
            RunEvent::Failed(e) => self.run_to(RunState::Stopped, RunActionView::Stop(e)),
            RunEvent::Readable { heartbeat, frontend } => if heartbeat {
                self.run_to(RunState::Heartbeat { frontend }, RunActionView::ProcessHeartbeat)
            } else if frontend {
                self.run_to(RunState::Frontend, RunActionView::ProcessFrontend)
            } else {
                self.run_to(RunState::Poll, RunActionView::Poll)
            },
            RunEvent::Done => match self.running {
                RunState::BindHeartbeat => self.run_to(
                    RunState::BindFrontend,
                    RunActionView::BindFrontend(self.config.fe_addr),
                ),
                RunState::BindFrontend => self.run_to(
                    RunState::Announce,
                    RunActionView::Announce(
                        "Listening on ("@ + self.config.fe_addr + ")"@,
                        "Heartbeat on ("@ + self.config.hb_addr + ")"@,
                    ),
                ),
                RunState::Heartbeat { frontend: true } => self.run_to(
                    RunState::Frontend,
                    RunActionView::ProcessFrontend,
                ),
                _ => self.run_to(RunState::Poll, RunActionView::Poll),
            },
        }
    }
}

} // verus!
