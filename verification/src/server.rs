//! The message router: it takes requests from clients, passes each on to the server that
//! services its shard, and passes replies back.
use vstd::prelude::*;
use vstd::slice::slice_to_vec;
use vstd::string::*;
use vstd::utf8::encode_utf8;

use crate::envelope::{Envelope, EnvelopeView};
use crate::net::{
    append_frames, copy_frame, frame_text, frames_view, same_text, ErrCode, Msg, NetError, Protocol,
    RouteInfo,
};
use crate::registry::{RegConflict, ServerMap};
use crate::router_model::{
    along, picks, routed, BodyView, ConfigView, DeliveryView, FrontendActionView,
    FrontendEventView, FrontendWait, HeartbeatActionView, HeartbeatEventView, HeartbeatWait,
    RouterError, RunActionView, RunEvent, RunState, ServerView, SocketState,
};

verus! {

/// The random number generator of the current thread, `rand::ThreadRng`.
#[verifier::external_type_specification]
#[verifier::external_body]
pub struct ExThreadRng(rand::ThreadRng);

/// `rand::thread_rng`: a handle to the current thread's generator, of which nothing is claimed. It
/// gives none, and panics, where the system has no randomness to offer.
pub assume_specification[ rand::thread_rng ]() -> rand::ThreadRng;

/// `rand::Rng::gen` at `u64`: a number of which nothing is claimed.
#[verifier::external_body]
fn random_number(rng: &mut rand::ThreadRng) -> (number: u64) {
    rand::Rng::gen::<u64>(rng)
}

impl Default for SocketState {
    /// No frame of a message has come yet.
    fn default() -> (state: SocketState)
        ensures
            state == SocketState::Ready,
    {
        SocketState::Ready
    }
}

/// The addresses that the router listens on.
#[derive(Debug)]
pub struct Config {
    pub fe_addr: String,
    pub hb_addr: String,
}

impl View for Config {
    type V = ConfigView;

    open spec fn view(&self) -> ConfigView {
        ConfigView { fe_addr: self.fe_addr@, hb_addr: self.hb_addr@ }
    }
}

/// The last frame of a delivery.
#[derive(Debug)]
pub enum Body {
    /// The frame itself.
    Frame(Vec<u8>),
    /// The encoded acceptance of a connection.
    ConnectOk,
    /// The encoded refusal.
    NetErr(NetError),
}

impl View for Body {
    type V = BodyView;

    open spec fn view(&self) -> BodyView {
        match self {
            Body::Frame(frame) => BodyView::Frame(frame@),
            Body::ConnectOk => BodyView::ConnectOk,
            Body::NetErr(e) => BodyView::NetErr(e@),
        }
    }
}

/// Frames to be sent as one message: `frames` in order, then `body`.
#[derive(Debug)]
pub struct Delivery {
    pub frames: Vec<Vec<u8>>,
    pub body: Body,
}

impl View for Delivery {
    type V = DeliveryView;

    open spec fn view(&self) -> DeliveryView {
        DeliveryView { frames: frames_view(self.frames@), body: self.body@ }
    }
}

/// Something that happened at the frontend.
#[derive(Debug)]
pub enum FrontendEvent {
    /// The frontend socket has a message.
    Begin,
    /// The next frame came.
    Received(Vec<u8>),
    /// The frame holds this message.
    Parsed(Msg),
    /// The frame holds no message.
    Unparsed,
    /// The connection request is a proper one.
    ConnectRead,
    /// The disconnection notice names this server.
    DisconnectRead(Protocol, String),
    /// The frames were sent.
    Sent,
    /// No frame could be had, or not all frames could be sent.
    Failed(RouterError),
}

impl View for FrontendEvent {
    type V = FrontendEventView;

    open spec fn view(&self) -> FrontendEventView {
        match self {
            FrontendEvent::Begin => FrontendEventView::Begin,
            FrontendEvent::Received(frame) => FrontendEventView::Received(frame@),
            FrontendEvent::Parsed(msg) => FrontendEventView::Parsed(msg@),
            FrontendEvent::Unparsed => FrontendEventView::Unparsed,
            FrontendEvent::ConnectRead => FrontendEventView::ConnectRead,
            FrontendEvent::DisconnectRead(protocol, endpoint) => FrontendEventView::DisconnectRead(
                *protocol,
                endpoint@,
            ),
            FrontendEvent::Sent => FrontendEventView::Sent,
            FrontendEvent::Failed(e) => FrontendEventView::Failed(*e),
        }
    }
}

/// What the frontend is to do.
#[derive(Debug)]
pub enum FrontendAction {
    /// Receive the next frame.
    Recv,
    /// Read the message that the frame holds.
    Parse(Vec<u8>),
    /// Read the connection request that the bytes hold; it is an error if they hold none.
    ReadConnect(Vec<u8>),
    /// Read the disconnection notice that the bytes hold; it is an error if they hold none.
    ReadDisconnect(Vec<u8>),
    /// Send the frames. The flag says that it is a fault if they cannot be sent.
    Deliver(Delivery, bool),
    /// Stop: the message is dealt with, or there was an error.
    Done(Result<(), RouterError>),
}

impl View for FrontendAction {
    type V = FrontendActionView;

    open spec fn view(&self) -> FrontendActionView {
        match self {
            FrontendAction::Recv => FrontendActionView::Recv,
            FrontendAction::Parse(frame) => FrontendActionView::Parse(frame@),
            FrontendAction::ReadConnect(body) => FrontendActionView::ReadConnect(body@),
            FrontendAction::ReadDisconnect(body) => FrontendActionView::ReadDisconnect(body@),
            FrontendAction::Deliver(delivery, must) => FrontendActionView::Deliver(delivery@, *must),
            FrontendAction::Done(result) => FrontendActionView::Done(*result),
        }
    }
}

/// Something that happened at the heartbeat socket.
#[derive(Debug)]
pub enum HeartbeatEvent {
    /// The heartbeat socket has a message.
    Begin,
    /// The next frame came.
    Received(Vec<u8>),
    /// The frame holds a registration: of this server, for these shards of the protocol.
    Registration(Protocol, String, Vec<u32>),
    /// The frames were sent.
    Sent,
    /// No frame could be had, the frame holds no registration, or not all frames could be sent.
    Failed(RouterError),
}

impl View for HeartbeatEvent {
    type V = HeartbeatEventView;

    open spec fn view(&self) -> HeartbeatEventView {
        match self {
            HeartbeatEvent::Begin => HeartbeatEventView::Begin,
            HeartbeatEvent::Received(frame) => HeartbeatEventView::Received(frame@),
            HeartbeatEvent::Registration(protocol, netid, shards) =>
                HeartbeatEventView::Registration(*protocol, netid@, shards@),
            HeartbeatEvent::Sent => HeartbeatEventView::Sent,
            HeartbeatEvent::Failed(e) => HeartbeatEventView::Failed(*e),
        }
    }
}

/// What the heartbeat handler is to do.
#[derive(Debug)]
pub enum HeartbeatAction {
    /// Receive the next frame.
    Recv,
    /// Read the registration that the frame holds.
    ReadRegistration(Vec<u8>),
    /// Send the frames.
    Deliver(Delivery),
    /// Stop: the heartbeat is dealt with, or there was an error.
    Done(Result<(), RouterError>),
}

impl View for HeartbeatAction {
    type V = HeartbeatActionView;

    open spec fn view(&self) -> HeartbeatActionView {
        match self {
            HeartbeatAction::Recv => HeartbeatActionView::Recv,
            HeartbeatAction::ReadRegistration(frame) => HeartbeatActionView::ReadRegistration(
                frame@,
            ),
            HeartbeatAction::Deliver(delivery) => HeartbeatActionView::Deliver(delivery@),
            HeartbeatAction::Done(result) => HeartbeatActionView::Done(*result),
        }
    }
}

/// What the service loop is to do.
#[derive(Debug)]
pub enum RunAction {
    /// Bind the heartbeat socket to this address.
    BindHeartbeat(String),
    /// Bind the frontend socket to this address.
    BindFrontend(String),
    /// Print these two lines.
    Announce(String, String),
    /// Wait until a socket has a message.
    Poll,
    /// Deal with a heartbeat.
    ProcessHeartbeat,
    /// Deal with a message at the frontend.
    ProcessFrontend,
    /// Stop with this error.
    Stop(RouterError),
}

impl View for RunAction {
    type V = RunActionView;

    open spec fn view(&self) -> RunActionView {
        match self {
            RunAction::BindHeartbeat(addr) => RunActionView::BindHeartbeat(addr@),
            RunAction::BindFrontend(addr) => RunActionView::BindFrontend(addr@),
            RunAction::Announce(first, second) => RunActionView::Announce(first@, second@),
            RunAction::Poll => RunActionView::Poll,
            RunAction::ProcessHeartbeat => RunActionView::ProcessHeartbeat,
            RunAction::ProcessFrontend => RunActionView::ProcessFrontend,
            RunAction::Stop(e) => RunActionView::Stop(*e),
        }
    }
}

/// The frame that holds a text.
fn text_frame(text: &str) -> (frame: Vec<u8>)
    ensures
        frame@ == encode_utf8(text@),
{
    slice_to_vec(text.as_bytes())
}

/// The frames that carry `body` back along the hops from `from` on, behind the frames that are
/// there already.
fn deliver_along(mut frames: Vec<Vec<u8>>, hops: &Vec<Vec<u8>>, from: usize, body: Body) -> (delivery:
    Delivery)
    requires
        from <= hops.len(),
    ensures
        delivery@ == along(
            frames_view(frames@) + frames_view(hops@).skip(from as int),
            body@,
        ),
{
    append_frames(&mut frames, hops, from);
    let ghost before = frames@;
    frames.push(Vec::new());
    let delivery = Delivery { frames, body };
    proof {
        let last = delivery.frames@.last();
        assert(last@ =~= Seq::empty());
        assert(frames_view(delivery.frames@) =~= frames_view(before).push(Seq::empty()));
    }
    delivery
}

/// The shard that a number decides.
pub fn shard_for(number: u64, shard_count: u32) -> (shard: u32)
    requires
        shard_count > 0,
    ensures
        shard == number % (shard_count as u64),
        shard < shard_count,
{
    let shard: u64 = number % shard_count as u64;
    shard as u32
}

/// What a server is answered on its registration.
pub fn registration_reply(result: Result<(), RegConflict>) -> (delivery: Delivery)
    ensures
        delivery@ == (DeliveryView {
            frames: Seq::empty(),
            body: BodyView::Frame(
                encode_utf8(
                    if result is Ok {
                        "REGOK"@
                    } else {
                        "REGCONFLICT"@
                    },
                ),
            ),
        }),
{
    let text: &str = match result {
        Ok(()) => "REGOK",
        Err(_) => "REGCONFLICT",
    };
    let delivery = Delivery { frames: Vec::new(), body: Body::Frame(text_frame(text)) };
    assert(delivery@.frames =~= Seq::empty());
    delivery
}

/// The router.
pub struct Server {
    config: Config,
    servers: ServerMap,
    state: SocketState,
    envelope: Envelope,
    frontend: FrontendWait,
    heartbeat: HeartbeatWait,
    running: RunState,
    shard_count: u32,
    rng: rand::ThreadRng,
}

impl View for Server {
    type V = ServerView;

    closed spec fn view(&self) -> ServerView {
        ServerView {
            config: self.config@,
            servers: self.servers@,
            state: self.state,
            envelope: self.envelope@,
            frontend: self.frontend,
            heartbeat: self.heartbeat,
            running: self.running,
            shard_count: self.shard_count,
        }
    }
}

impl Server {
    /// A router that knows no server yet. Messages pass up to `hop_limit` hops, and shards are
    /// counted from zero up to `shard_count`.
    pub fn new(config: Config, hop_limit: usize, shard_count: u32) -> (server: Server)
        requires
            shard_count > 0,
        ensures
            server@ == (ServerView {
                config: config@,
                servers: Map::empty(),
                state: SocketState::Ready,
                envelope: EnvelopeView {
                    hops: Seq::empty(),
                    msg: None,
                    limit: hop_limit as nat,
                },
                frontend: FrontendWait::Idle,
                heartbeat: HeartbeatWait::Idle,
                running: RunState::Idle,
                shard_count,
            }),
            server@.inv(),
    {
        Server {
            config,
            servers: ServerMap::default(),
            state: SocketState::default(),
            envelope: Envelope::new(hop_limit),
            frontend: FrontendWait::Idle,
            heartbeat: HeartbeatWait::Idle,
            running: RunState::Idle,
            shard_count,
            rng: rand::thread_rng(),
        }
    }

    /// Replaces the configuration.
    pub fn reconfigure(&mut self, config: Config) -> (result: Result<(), RouterError>)
        ensures
            result is Ok,
            final(self)@ == (ServerView { config: config@, ..old(self)@ }),
    {
        self.config = config;
        Ok(())
    }

    /// Deals with what happened at the frontend and says what to do next.
    pub fn process_frontend(&mut self, event: FrontendEvent) -> (action: FrontendAction)
        requires
            old(self)@.inv(),
            old(self)@.expects(event@),
        ensures
            exists|shard: u32| #[trigger]
                old(self)@.may_pick(event@, shard) && (final(self)@, action@) == old(
                    self,
                )@.frontend_step(event@, shard),
            final(self)@.inv(),
    {
        // Any shard will do where the event brings no message.
        assert(!(event@ is Parsed) ==> old(self)@.may_pick(event@, 0));
        match event {
            FrontendEvent::Begin => self.go_on(),
            FrontendEvent::Received(frame) => self.receive(frame),
            FrontendEvent::Parsed(msg) => self.parsed(msg),
            FrontendEvent::Unparsed | FrontendEvent::Sent => self.clean(),
            FrontendEvent::ConnectRead => {
                self.frontend = FrontendWait::Delivery { must: true };
                let delivery = Delivery { frames: Vec::new(), body: Body::ConnectOk };
                assert(delivery@.frames =~= Seq::empty());
                FrontendAction::Deliver(delivery, true)
            },
            FrontendEvent::DisconnectRead(protocol, endpoint) => {
                self.servers.drop(protocol, endpoint.as_str());
                self.clean()
            },
            FrontendEvent::Failed(e) => {
                self.frontend = FrontendWait::Idle;
                FrontendAction::Done(Err(e))
            },
        }
    }

    /// Forgets the message and ends the work on it.
    fn clean(&mut self) -> (action: FrontendAction)
        ensures
            (final(self)@, action@) == old(self)@.cleaned(),
            old(self)@.shard_count > 0 ==> final(self)@.inv(),
    {
        self.reset();
        self.state = SocketState::Ready;
        self.frontend = FrontendWait::Idle;
        FrontendAction::Done(Ok(()))
    }

    /// Goes on from the socket state.
    fn go_on(&mut self) -> (action: FrontendAction)
        ensures
            (final(self)@, action@) == old(self)@.going_on(),
    {
        let over: bool = match self.state {
            SocketState::Ready | SocketState::Hops => self.envelope.max_hops(),
            SocketState::Cleaning => true,
            _ => false,
        };
        if over {
            self.clean()
        } else {
            self.frontend = FrontendWait::Frame;
            FrontendAction::Recv
        }
    }

    /// Takes in a hop and goes on.
    fn hop(&mut self, hop: Vec<u8>) -> (action: FrontendAction)
        requires
            !old(self)@.envelope.max_hops(),
        ensures
            (final(self)@, action@) == old(self)@.hopping(hop@),
    {
        self.envelope.add_hop(hop);
        self.state = SocketState::Hops;
        self.go_on()
    }

    /// Deals with a frame.
    fn receive(&mut self, frame: Vec<u8>) -> (action: FrontendAction)
        requires
            old(self)@.inv(),
            old(self)@.frontend == FrontendWait::Frame,
        ensures
            (final(self)@, action@) == old(self)@.received(frame@),
            final(self)@.inv(),
    {
        match self.state {
            SocketState::Ready => if frame.len() == 0 {
                self.clean()
            } else {
                self.hop(frame)
            },
            SocketState::Hops => if frame.len() == 0 {
                self.state = SocketState::Control;
                self.go_on()
            } else {
                self.hop(frame)
            },
            SocketState::Control => {
                let (reply, request): (bool, bool) = match frame_text(frame.as_slice()) {
                    Some(text) => (
                        same_text(text.as_str(), "RP"),
                        same_text(text.as_str(), "RQ"),
                    ),
                    None => (false, false),
                };
                if reply {
                    self.state = SocketState::Forwarding;
                    self.go_on()
                } else if request {
                    self.state = SocketState::Routing;
                    self.go_on()
                } else {
                    self.clean()
                }
            },
            SocketState::Forwarding => {
                let delivery = deliver_along(
                    Vec::new(),
                    self.envelope.hops(),
                    1,
                    Body::Frame(frame),
                );
                self.frontend = FrontendWait::Delivery { must: true };
                FrontendAction::Deliver(delivery, true)
            },
            SocketState::Routing => if frame.len() == 0 {
                self.clean()
            } else {
                self.frontend = FrontendWait::Message;
                FrontendAction::Parse(frame)
            },
            SocketState::Cleaning => self.clean(),
        }
    }

    /// Empties the envelope.
    fn reset(&mut self)
        ensures
            final(self)@ == (ServerView { envelope: old(self)@.envelope.emptied(), ..old(self)@ }),
    {
        self.envelope.reset();
    }

    /// Deals with a message.
    fn parsed(&mut self, msg: Msg) -> (action: FrontendAction)
        requires
            old(self)@.inv(),
            old(self)@.frontend == FrontendWait::Message,
        ensures
            exists|shard: u32| #[trigger]
                old(self)@.may_pick(FrontendEventView::Parsed(msg@), shard) && (
                final(self)@,
                action@,
                ) == old(self)@.parsed(msg@, shard),
            final(self)@.inv(),
    {
        let route: Option<RouteInfo> = msg.route_info;
        self.envelope.set_msg(msg);
        match route {
            None => {
                assert(old(self)@.may_pick(FrontendEventView::Parsed(msg@), 0));
                self.clean()
            },
            Some(route) => match route.protocol {
                Protocol::RouteSrv => {
                    let ghost shard: u32 = match route.hash {
                        Some(hash) => (hash % (self.shard_count as u64)) as u32,
                        None => 0,
                    };
                    assert(old(self)@.may_pick(FrontendEventView::Parsed(msg@), shard));
                    self.handle_message()
                },
                Protocol::Service(_) => {
                    let delivery: Delivery = self.route_message();
                    proof {
                        let shard = choose|shard: u32| #[trigger]
                            picks(route, self@.shard_count, shard) && delivery@ == routed(
                                self@.servers,
                                route.protocol,
                                shard,
                                self@.envelope.hops,
                                msg@.wire,
                            );
                        assert(old(self)@.may_pick(FrontendEventView::Parsed(msg@), shard));
                    }
                    self.frontend = FrontendWait::Delivery { must: false };
                    FrontendAction::Deliver(delivery, false)
                },
            },
        }
    }

    /// Deals with a message to the router itself.
    pub fn handle_message(&mut self) -> (action: FrontendAction)
        requires
            old(self)@.inv(),
            old(self)@.state == SocketState::Routing,
            old(self)@.envelope.msg is Some,
        ensures
            (final(self)@, action@) == old(self)@.handled(old(self)@.envelope.msg.unwrap()),
            final(self)@.inv(),
    {
        let msg: &Msg = self.envelope.msg().unwrap();
        if same_text(msg.message_id.as_str(), "Connect") {
            let body: Vec<u8> = copy_frame(&msg.body);
            self.frontend = FrontendWait::Connect;
            FrontendAction::ReadConnect(body)
        } else if same_text(msg.message_id.as_str(), "Disconnect") {
            let body: Vec<u8> = copy_frame(&msg.body);
            self.frontend = FrontendWait::Disconnect;
            FrontendAction::ReadDisconnect(body)
        } else {
            self.clean()
        }
    }

    /// Picks a shard for the message in the envelope and says what is to be sent where.
    pub fn route_message(&mut self) -> (delivery: Delivery)
        requires
            old(self)@.shard_count > 0,
            old(self)@.route() is Some,
        ensures
            exists|shard: u32| #[trigger]
                picks(old(self)@.route().unwrap(), old(self)@.shard_count, shard) && delivery@
                    == routed(
                    old(self)@.servers,
                    old(self)@.route().unwrap().protocol,
                    shard,
                    old(self)@.envelope.hops,
                    old(self)@.envelope.msg.unwrap().wire,
                ),
            final(self)@ == old(self)@,
    {
        let shard: u32 = self.select_shard();
        self.route_to(shard)
    }

    /// What is to be sent where, if the message in the envelope goes to `shard`.
    pub fn route_to(&self, shard: u32) -> (delivery: Delivery)
        requires
            self@.route() is Some,
        ensures
            delivery@ == routed(
                self@.servers,
                self@.route().unwrap().protocol,
                shard,
                self@.envelope.hops,
                self@.envelope.msg.unwrap().wire,
            ),
    {
        let msg: &Msg = self.envelope.msg().unwrap();
        let protocol: Protocol = msg.route_info.unwrap().protocol;
        let mut frames: Vec<Vec<u8>> = Vec::new();
        let body: Body = match self.servers.get(protocol, shard) {
            Some(server) => {
                let address = text_frame(server.endpoint.as_str());
                frames.push(address);
                assert(frames_view(frames@) =~= seq![address@]);
                Body::Frame(copy_frame(&msg.wire))
            },
            None => {
                assert(frames_view(frames@) =~= Seq::empty());
                let trace: &str = if self.servers.knows(protocol) {
                    "rt:route:1"
                } else {
                    "rt:route:2"
                };
                Body::NetErr(NetError { code: ErrCode::NoShard, msg: trace.to_owned() })
            },
        };
        let delivery = deliver_along(frames, self.envelope.hops(), 0, body);
        proof {
            let hops = self@.envelope.hops;
            assert(hops.skip(0) =~= hops);
            assert(Seq::<Seq<u8>>::empty() + hops =~= hops);
        }
        delivery
    }

    /// Picks a shard for the message in the envelope: the one that its hash decides, or any.
    pub fn select_shard(&mut self) -> (shard: u32)
        requires
            old(self)@.shard_count > 0,
            old(self)@.route() is Some,
        ensures
            picks(old(self)@.route().unwrap(), old(self)@.shard_count, shard),
            final(self)@ == old(self)@,
    {
        let route: RouteInfo = self.envelope.msg().unwrap().route_info.unwrap();
        match route.hash {
            Some(hash) => shard_for(hash, self.shard_count),
            None => shard_for(random_number(&mut self.rng), self.shard_count),
        }
    }

    /// Deals with what happened at the heartbeat socket at time `now` and says what to do next.
    pub fn process_heartbeat(&mut self, event: HeartbeatEvent, now: u64) -> (action: HeartbeatAction)
        requires
            old(self)@.expects_heartbeat(event@),
        ensures
            (final(self)@, action@) == old(self)@.heartbeat_step(event@, now),
            old(self)@.inv() ==> final(self)@.inv(),
    {
        match event {
            HeartbeatEvent::Begin => {
                self.heartbeat = HeartbeatWait::Command;
                HeartbeatAction::Recv
            },
            HeartbeatEvent::Received(frame) => match self.heartbeat {
                HeartbeatWait::Command => self.command(frame),
                HeartbeatWait::Registration => {
                    self.heartbeat = HeartbeatWait::Reading;
                    HeartbeatAction::ReadRegistration(frame)
                },
                _ => {
                    if let Some(netid) = frame_text(frame.as_slice()) {
                        self.servers.renew(netid.as_str(), now);
                    }
                    self.heartbeat = HeartbeatWait::Idle;
                    HeartbeatAction::Done(Ok(()))
                },
            },
            HeartbeatEvent::Registration(protocol, netid, shards) => {
                let result = self.servers.add(protocol, netid, shards, now);
                self.heartbeat = HeartbeatWait::Delivery;
                HeartbeatAction::Deliver(registration_reply(result))
            },
            HeartbeatEvent::Sent => {
                self.heartbeat = HeartbeatWait::Idle;
                HeartbeatAction::Done(Ok(()))
            },
            HeartbeatEvent::Failed(e) => {
                self.heartbeat = HeartbeatWait::Idle;
                HeartbeatAction::Done(Err(e))
            },
        }
    }

    /// Deals with the first frame of a heartbeat.
    fn command(&mut self, frame: Vec<u8>) -> (action: HeartbeatAction)
        ensures
            (final(self)@, action@) == old(self)@.commanded(frame@),
    {
        let wait: HeartbeatWait = match frame_text(frame.as_slice()) {
            None => HeartbeatWait::Idle,
            Some(text) => if text.as_str().is_empty() {
                HeartbeatWait::Idle
            } else if same_text(text.as_str(), "R") {
                HeartbeatWait::Registration
            } else if same_text(text.as_str(), "P") {
                HeartbeatWait::Pulse
            } else {
                HeartbeatWait::Delivery
            },
        };
        self.heartbeat = wait;
        match wait {
            HeartbeatWait::Idle => HeartbeatAction::Done(Ok(())),
            HeartbeatWait::Delivery => {
                let ghost ident = frame@;
                let mut frames: Vec<Vec<u8>> = Vec::new();
                frames.push(frame);
                frames.push(Vec::new());
                let delivery = Delivery { frames, body: Body::Frame(text_frame("REG")) };
                proof {
                    assert(delivery.frames@[1]@ =~= Seq::empty());
                    assert(delivery@.frames =~= seq![ident, Seq::empty()]);
                }
                HeartbeatAction::Deliver(delivery)
            },
            _ => HeartbeatAction::Recv,
        }
    }

    /// Deals with what happened to the service loop and says what to do next.
    pub fn run(&mut self, event: RunEvent) -> (action: RunAction)
        requires
            old(self)@.expects_run(event),
        ensures
            (final(self)@, action@) == old(self)@.run_step(event),
            old(self)@.inv() ==> final(self)@.inv(),
    {
        match event {
            RunEvent::Begin => {
                self.running = RunState::BindHeartbeat;
                RunAction::BindHeartbeat(self.config.hb_addr.clone())
            },
            RunEvent::Failed(e) => {
                self.running = RunState::Stopped;
                RunAction::Stop(e)
            },
            RunEvent::Readable { heartbeat, frontend } => if heartbeat {
                self.running = RunState::Heartbeat { frontend };
                RunAction::ProcessHeartbeat
            } else if frontend {
                self.running = RunState::Frontend;
                RunAction::ProcessFrontend
            } else {
                RunAction::Poll
            },
            RunEvent::Done => match self.running {
                RunState::BindHeartbeat => {
                    self.running = RunState::BindFrontend;
                    RunAction::BindFrontend(self.config.fe_addr.clone())
                },
                RunState::BindFrontend => {
                    self.running = RunState::Announce;
                    RunAction::Announce(
                        listening("Listening on (", self.config.fe_addr.as_str()),
                        listening("Heartbeat on (", self.config.hb_addr.as_str()),
                    )
                },
                RunState::Heartbeat { frontend: true } => {
                    self.running = RunState::Frontend;
                    RunAction::ProcessFrontend
                },
                _ => {
                    self.running = RunState::Poll;
                    RunAction::Poll
                },
            },
        }
    }
}

/// A line that tells an address.
fn listening(what: &str, addr: &str) -> (line: String)
    ensures
        line@ == what@ + addr@ + ")"@,
{
    let mut line = what.to_owned();
    line.append(addr);
    line.append(")");
    line
}

} // verus!
