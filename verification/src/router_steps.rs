//! What each event does to the router, in full.
use vstd::prelude::*;
use vstd::utf8::encode_utf8;

use crate::envelope::EnvelopeView;
use crate::net::{frames_view, text_of, ErrCode, Msg, MsgView, NetError, Protocol, RouteInfo};
use crate::registry::{added, dropped, pulsed, Claims, ServerReg};
use crate::router_laws::{at_start, fed, law_reply_is_forwarded, proper_hops};
use crate::router_model::{
    picks, routed, BodyView, FrontendActionView, FrontendEventView, FrontendWait,
    HeartbeatActionView, HeartbeatEventView, HeartbeatWait, RouterError, RunActionView, RunEvent,
    RunState, ServerView, SocketState,
};
use crate::server::{
    Body, Config, Delivery, FrontendAction, FrontendEvent, HeartbeatAction, HeartbeatEvent,
    RunAction,
};

verus! {

/// A frame holds a text exactly where it is that text's encoding.
pub proof fn law_frame_holds_text(frame: Seq<u8>, text: Seq<char>)
    ensures
        text_of(frame) == Some(text) <==> frame == encode_utf8(text),
        text_of(frame) is None <==> !(exists|t: Seq<char>| frame == #[trigger] encode_utf8(t)),
{
    broadcast use vstd::utf8::group_utf8_lib;

    if text_of(frame) is Some {
        assert(frame == encode_utf8(text_of(frame).unwrap()));
    }
    if exists|t: Seq<char>| frame == #[trigger] encode_utf8(t) {
        let t = choose|t: Seq<char>| frame == #[trigger] encode_utf8(t);
        assert(text_of(encode_utf8(t)) is Some);
    }
}

/// The shard that a hash picks is what the hash leaves when divided by the number of shards, and
/// without a hash any shard there is may be picked and no other.
pub proof fn law_hash_is_divided(route: RouteInfo, shard_count: u32, shard: u32)
    requires
        shard_count > 0,
    ensures
        route.hash matches Some(hash) ==> (picks(route, shard_count, shard) <==> shard as int
            == hash as int % shard_count as int),
        route.hash is None ==> (picks(route, shard_count, shard) <==> shard < shard_count),
{
}

/// Two hashes that differ by the number of shards pick the same shard, and a hash below it picks
/// the shard of that number.
pub proof fn law_hashes_go_round(protocol: Protocol, hash: u64, shard_count: u32, shard: u32)
    requires
        shard_count > 0,
    ensures
        hash + shard_count <= 0xffff_ffff_ffff_ffff ==> (picks(
            RouteInfo { protocol, hash: Some(hash) },
            shard_count,
            shard,
        ) <==> picks(
            RouteInfo { protocol, hash: Some((hash + shard_count) as u64) },
            shard_count,
            shard,
        )),
        hash < shard_count ==> (picks(RouteInfo { protocol, hash: Some(hash) }, shard_count, shard)
            <==> shard == hash),
{
    if hash + shard_count <= 0xffff_ffff_ffff_ffff {
        vstd::arithmetic::div_mod::lemma_mod_add_multiples_vanish(
            hash as int,
            shard_count as int,
        );
    }
    if hash < shard_count {
        vstd::arithmetic::div_mod::lemma_small_mod(hash as nat, shard_count as nat);
    }
}

/// Every claim after a registration: the server holds each shard that it named, as of now, and all
/// other claims are as they were.
pub proof fn law_claims_after_registration(
    claims: Claims,
    protocol: Protocol,
    netid: Seq<char>,
    shards: Seq<u32>,
    now: u64,
    other: Protocol,
    shard: u32,
)
    ensures
        ({
            let after = added(claims, protocol, netid, shards, now);
            &&& after.contains_key(other) <==> claims.contains_key(other) || other == protocol
            &&& after.contains_key(other) && after[other].contains_key(shard) <==> (
            claims.contains_key(other) && claims[other].contains_key(shard)) || (other == protocol
                && shards.contains(shard))
            &&& other == protocol && shards.contains(shard) ==> after[other][shard].endpoint
                == netid && after[other][shard].renewed == now
            &&& !(other == protocol && shards.contains(shard)) && claims.contains_key(other)
                && claims[other].contains_key(shard) ==> after[other][shard] == claims[other][shard]
        }),
{
}

/// Every claim after a server left a protocol: its own on that protocol are gone, and all others
/// are as they were.
pub proof fn law_claims_after_leaving(
    claims: Claims,
    protocol: Protocol,
    netid: Seq<char>,
    other: Protocol,
    shard: u32,
)
    ensures
        ({
            let after = dropped(claims, protocol, netid);
            let held = claims.contains_key(other) && claims[other].contains_key(shard);
            &&& after.contains_key(other) <==> claims.contains_key(other)
            &&& after.contains_key(other) && after[other].contains_key(shard) <==> held && !(other
                == protocol && claims[other][shard].endpoint == netid)
            &&& after.contains_key(other) && after[other].contains_key(shard)
                ==> after[other][shard] == claims[other][shard]
        }),
{
}

/// Every claim after a sign of life: the server's own, of whatever protocol, are as of now, and
/// nothing else has changed.
pub proof fn law_claims_after_pulse(
    claims: Claims,
    netid: Seq<char>,
    now: u64,
    protocol: Protocol,
    shard: u32,
)
    ensures
        ({
            let after = pulsed(claims, netid, now);
            let held = claims.contains_key(protocol) && claims[protocol].contains_key(shard);
            &&& after.contains_key(protocol) <==> claims.contains_key(protocol)
            &&& after.contains_key(protocol) && after[protocol].contains_key(shard) <==> held
            &&& held ==> after[protocol][shard].endpoint == claims[protocol][shard].endpoint
            &&& held ==> after[protocol][shard].renewed == if claims[protocol][shard].endpoint
                == netid {
                now
            } else {
                claims[protocol][shard].renewed
            }
        }),
{
}

/// What is sent for a request: where a server holds the shard, its address, the hops and an empty
/// frame, and behind them the message as it came; where none does, the hops and an empty frame,
/// and behind them a refusal that tells whether the protocol is known.
pub proof fn law_request_is_sent(
    claims: Claims,
    protocol: Protocol,
    shard: u32,
    hops: Seq<Seq<u8>>,
    wire: Seq<u8>,
)
    ensures
        ({
            let delivery = routed(claims, protocol, shard, hops, wire);
            if claims.contains_key(protocol) && claims[protocol].contains_key(shard) {
                &&& delivery.frames == seq![encode_utf8(claims[protocol][shard].endpoint)] + hops
                    + seq![Seq::<u8>::empty()]
                &&& delivery.body == BodyView::Frame(wire)
            } else {
                &&& delivery.frames == hops + seq![Seq::<u8>::empty()]
                &&& delivery.body matches BodyView::NetErr(e) && e.code == ErrCode::NoShard && e.msg
                    == if claims.contains_key(protocol) {
                    "rt:route:1"@
                } else {
                    "rt:route:2"@
                }
            }
        }),
{
    let delivery = routed(claims, protocol, shard, hops, wire);
    if claims.contains_key(protocol) && claims[protocol].contains_key(shard) {
        assert(delivery.frames =~= seq![encode_utf8(claims[protocol][shard].endpoint)] + hops
            + seq![Seq::<u8>::empty()]);
    } else {
        assert(delivery.frames =~= hops + seq![Seq::<u8>::empty()]);
    }
}

/// A request with a hash goes to the server that registered last for the shard that the hash
/// leaves when divided by the number of shards, with the hops that it came by and as it came.
pub proof fn law_hashed_request_is_serviced(
    s: ServerView,
    msg: MsgView,
    service: u32,
    hash: u64,
    shard: u32,
    netid: Seq<char>,
    shards: Seq<u32>,
    now: u64,
)
    requires
        s.inv(),
        s.frontend == FrontendWait::Message,
        msg.route_info == Some(
            RouteInfo { protocol: Protocol::Service(service), hash: Some(hash) },
        ),
        shards.contains((hash as int % s.shard_count as int) as u32),
        s.may_pick(FrontendEventView::Parsed(msg), shard),
    ensures
        ({
            let registered = ServerView {
                servers: added(s.servers, Protocol::Service(service), netid, shards, now),
                ..s
            };
            registered.frontend_step(FrontendEventView::Parsed(msg), shard).1 matches
                FrontendActionView::Deliver(delivery, must) && !must && delivery.frames
                == seq![encode_utf8(netid)] + s.envelope.hops + seq![Seq::<u8>::empty()]
                && delivery.body == BodyView::Frame(msg.wire)
        }),
{
    let claims = added(s.servers, Protocol::Service(service), netid, shards, now);
    law_hash_is_divided(msg.route_info.unwrap(), s.shard_count, shard);
    law_request_is_sent(claims, Protocol::Service(service), shard, s.envelope.hops, msg.wire);
}

/// A reply is passed on to the hops behind the first, with one empty frame behind them and then the
/// very body that came.
pub proof fn law_reply_is_sent(
    s: ServerView,
    server: Seq<u8>,
    hops: Seq<Seq<u8>>,
    body: Seq<u8>,
)
    requires
        at_start(s),
        proper_hops(s, seq![server] + hops),
    ensures
        fed(
            s,
            (seq![server] + hops).push(Seq::empty()).push(encode_utf8("RP"@)).push(body),
        ).1 matches FrontendActionView::Deliver(delivery, must) && must && delivery.frames == hops
            + seq![Seq::<u8>::empty()] && delivery.body == BodyView::Frame(body),
{
    law_reply_is_forwarded(s, server, hops, body);
    assert(hops.push(Seq::<u8>::empty()) =~= hops + seq![Seq::<u8>::empty()]);
}

/// What a frame does, in each socket state. A message that is given up leaves the router as it
/// was, without hops and without a message.
pub proof fn law_frame_step(s: ServerView, frame: Seq<u8>, shard: u32)
    requires
        s.inv(),
        s.frontend == FrontendWait::Frame,
    ensures
        ({
            let (t, action) = s.frontend_step(FrontendEventView::Received(frame), shard);
            let hops = s.envelope.hops;
            let given_up = t == (ServerView {
                state: SocketState::Ready,
                envelope: EnvelopeView {
                    hops: Seq::empty(),
                    msg: None,
                    limit: s.envelope.limit,
                },
                frontend: FrontendWait::Idle,
                ..s
            }) && action == FrontendActionView::Done(Ok(()));
            match s.state {
                SocketState::Ready => if frame.len() == 0 || s.envelope.limit <= 1 {
                    given_up
                } else {
                    &&& action == FrontendActionView::Recv
                    &&& t == (ServerView {
                        state: SocketState::Hops,
                        envelope: EnvelopeView { hops: seq![frame], ..s.envelope },
                        ..s
                    })
                },
                SocketState::Hops => if frame.len() == 0 {
                    &&& action == FrontendActionView::Recv
                    &&& t == (ServerView { state: SocketState::Control, ..s })
                } else if hops.len() + 1 >= s.envelope.limit {
                    given_up
                } else {
                    &&& action == FrontendActionView::Recv
                    &&& t == (ServerView {
                        envelope: EnvelopeView { hops: hops.push(frame), ..s.envelope },
                        ..s
                    })
                },
                SocketState::Control => if frame == encode_utf8("RP"@) {
                    &&& action == FrontendActionView::Recv
                    &&& t == (ServerView { state: SocketState::Forwarding, ..s })
                } else if frame == encode_utf8("RQ"@) {
                    &&& action == FrontendActionView::Recv
                    &&& t == (ServerView { state: SocketState::Routing, ..s })
                } else {
                    given_up
                },
                SocketState::Forwarding => {
                    &&& action matches FrontendActionView::Deliver(delivery, must) && must
                        && delivery.frames == hops.skip(1) + seq![Seq::<u8>::empty()]
                        && delivery.body == BodyView::Frame(frame)
                    &&& t == (ServerView {
                        frontend: FrontendWait::Delivery { must: true },
                        ..s
                    })
                },
                SocketState::Routing => if frame.len() == 0 {
                    given_up
                } else {
                    &&& action == FrontendActionView::Parse(frame)
                    &&& t == (ServerView { frontend: FrontendWait::Message, ..s })
                },
                SocketState::Cleaning => true,
            }
        }),
{
    let (t, action) = s.frontend_step(FrontendEventView::Received(frame), shard);
    law_frame_holds_text(frame, "RP"@);
    law_frame_holds_text(frame, "RQ"@);
    if s.state == SocketState::Ready && frame.len() > 0 && s.envelope.limit > 1 {
        assert(t.envelope.hops =~= seq![frame]);
    }
    if s.state == SocketState::Forwarding {
        assert(s.envelope.hops.skip(1).push(Seq::<u8>::empty()) =~= s.envelope.hops.skip(1) + seq![
            Seq::<u8>::empty(),
        ]);
    }
}

/// What a message does. One without route information, or to the router under a name that it does
/// not know, is given up; a connection request or disconnection notice to the router has its
/// content read; and one for a service is sent to the shard picked, which need not succeed.
pub proof fn law_message_step(s: ServerView, msg: MsgView, shard: u32)
    requires
        s.inv(),
        s.frontend == FrontendWait::Message,
    ensures
        ({
            let (t, action) = s.frontend_step(FrontendEventView::Parsed(msg), shard);
            let holding = EnvelopeView { msg: Some(msg), ..s.envelope };
            let given_up = t == (ServerView {
                state: SocketState::Ready,
                envelope: EnvelopeView {
                    hops: Seq::empty(),
                    msg: None,
                    limit: s.envelope.limit,
                },
                frontend: FrontendWait::Idle,
                ..s
            }) && action == FrontendActionView::Done(Ok(()));
            match msg.route_info {
                None => given_up,
                Some(route) => match route.protocol {
                    Protocol::RouteSrv => if msg.message_id == "Connect"@ {
                        &&& action == FrontendActionView::ReadConnect(msg.body)
                        &&& t == (ServerView {
                            envelope: holding,
                            frontend: FrontendWait::Connect,
                            ..s
                        })
                    } else if msg.message_id == "Disconnect"@ {
                        &&& action == FrontendActionView::ReadDisconnect(msg.body)
                        &&& t == (ServerView {
                            envelope: holding,
                            frontend: FrontendWait::Disconnect,
                            ..s
                        })
                    } else {
                        given_up
                    },
                    Protocol::Service(_) => {
                        &&& action == FrontendActionView::Deliver(
                            routed(
                                s.servers,
                                route.protocol,
                                shard,
                                s.envelope.hops,
                                msg.wire,
                            ),
                            false,
                        )
                        &&& t == (ServerView {
                            envelope: holding,
                            frontend: FrontendWait::Delivery { must: false },
                            ..s
                        })
                    },
                },
            }
        }),
{
}

/// What any other event at the frontend does. What begins asks for a frame, unless the hops have
/// reached the limit; what holds no message, and what was sent, is dealt with; a connection is
/// accepted; a server that leaves loses its claims; and a failure ends the work with it and leaves
/// the message where it is.
pub proof fn law_frontend_step(s: ServerView, event: FrontendEventView, shard: u32)
    requires
        s.inv(),
        s.expects(event),
    ensures
        ({
            let (t, action) = s.frontend_step(event, shard);
            let forgotten = ServerView {
                state: SocketState::Ready,
                envelope: EnvelopeView {
                    hops: Seq::empty(),
                    msg: None,
                    limit: s.envelope.limit,
                },
                frontend: FrontendWait::Idle,
                ..s
            };
            match event {
                FrontendEventView::Begin => if (s.state == SocketState::Ready || s.state
                    == SocketState::Hops) && s.envelope.hops.len() >= s.envelope.limit {
                    t == forgotten && action == FrontendActionView::Done(Ok(()))
                } else {
                    &&& action == FrontendActionView::Recv
                    &&& t == (ServerView { frontend: FrontendWait::Frame, ..s })
                },
                FrontendEventView::Unparsed | FrontendEventView::Sent => t == forgotten && action
                    == FrontendActionView::Done(Ok(())),
                FrontendEventView::ConnectRead => {
                    &&& action matches FrontendActionView::Deliver(delivery, must) && must
                        && delivery.frames.len() == 0 && delivery.body == BodyView::ConnectOk
                    &&& t == (ServerView {
                        frontend: FrontendWait::Delivery { must: true },
                        ..s
                    })
                },
                FrontendEventView::DisconnectRead(protocol, netid) => {
                    &&& action == FrontendActionView::Done(Ok(()))
                    &&& t == (ServerView {
                        servers: dropped(s.servers, protocol, netid),
                        ..forgotten
                    })
                },
                FrontendEventView::Failed(e) => {
                    &&& action == FrontendActionView::Done(Err(e))
                    &&& t == (ServerView { frontend: FrontendWait::Idle, ..s })
                },
                _ => true,
            }
        }),
{
}

/// Whatever the frontend asks for, it waits for each answer that there may be; and when it is done,
/// it can begin again.
pub proof fn law_frontend_waits_for_answers(
    s: ServerView,
    event: FrontendEventView,
    shard: u32,
    frame: Seq<u8>,
    msg: MsgView,
    protocol: Protocol,
    netid: Seq<char>,
    e: RouterError,
)
    requires
        s.inv(),
        s.expects(event),
    ensures
        ({
            let (t, action) = s.frontend_step(event, shard);
            match action {
                FrontendActionView::Recv => t.expects(FrontendEventView::Received(frame))
                    && t.expects(FrontendEventView::Failed(e)),
                FrontendActionView::Parse(_) => t.expects(FrontendEventView::Parsed(msg))
                    && t.expects(FrontendEventView::Unparsed),
                FrontendActionView::ReadConnect(_) => t.expects(FrontendEventView::ConnectRead),
                FrontendActionView::ReadDisconnect(_) => t.expects(
                    FrontendEventView::DisconnectRead(protocol, netid),
                ),
                FrontendActionView::Deliver(_, must) => t.expects(FrontendEventView::Sent) && (
                t.expects(FrontendEventView::Failed(e)) <==> !must),
                FrontendActionView::Done(_) => t.expects(FrontendEventView::Begin),
            }
        }),
{
}

/// What the first frame of a heartbeat does: without a text, or with none in it, nothing; with an
/// `R` or a `P` another frame is asked for; and with any other name the connection is asked to
/// register, by a frame with its name, an empty frame and `REG`.
pub proof fn law_command_step(s: ServerView, frame: Seq<u8>, now: u64)
    requires
        s.heartbeat == HeartbeatWait::Command,
    ensures
        ({
            let (t, action) = s.heartbeat_step(HeartbeatEventView::Received(frame), now);
            if !(exists|text: Seq<char>|
                text.len() > 0 && frame == #[trigger] encode_utf8(text)) {
                &&& action == HeartbeatActionView::Done(Ok(()))
                &&& t == (ServerView { heartbeat: HeartbeatWait::Idle, ..s })
            } else if frame == encode_utf8("R"@) {
                &&& action == HeartbeatActionView::Recv
                &&& t == (ServerView { heartbeat: HeartbeatWait::Registration, ..s })
            } else if frame == encode_utf8("P"@) {
                &&& action == HeartbeatActionView::Recv
                &&& t == (ServerView { heartbeat: HeartbeatWait::Pulse, ..s })
            } else {
                &&& action matches HeartbeatActionView::Deliver(delivery) && delivery.frames
                    == seq![frame, Seq::<u8>::empty()] && delivery.body == BodyView::Frame(
                    encode_utf8("REG"@),
                )
                &&& t == (ServerView { heartbeat: HeartbeatWait::Delivery, ..s })
            }
        }),
{
    reveal_strlit("R");
    reveal_strlit("P");
    assert("R"@[0] != "P"@[0]);
    law_frame_holds_text(frame, "R"@);
    law_frame_holds_text(frame, "P"@);
    if text_of(frame) is Some {
        let text = text_of(frame).unwrap();
        law_frame_holds_text(frame, text);
    }
    if exists|text: Seq<char>| text.len() > 0 && frame == #[trigger] encode_utf8(text) {
        let text = choose|text: Seq<char>| text.len() > 0 && frame == #[trigger] encode_utf8(text);
        law_frame_holds_text(frame, text);
    }
}

/// What any other event at the heartbeat socket does.
pub proof fn law_heartbeat_step(s: ServerView, event: HeartbeatEventView, now: u64)
    requires
        s.expects_heartbeat(event),
    ensures
        ({
            let (t, action) = s.heartbeat_step(event, now);
            match event {
                HeartbeatEventView::Begin => {
                    &&& action == HeartbeatActionView::Recv
                    &&& t == (ServerView { heartbeat: HeartbeatWait::Command, ..s })
                },
                HeartbeatEventView::Received(frame) => match s.heartbeat {
                    HeartbeatWait::Registration => {
                        &&& action == HeartbeatActionView::ReadRegistration(frame)
                        &&& t == (ServerView { heartbeat: HeartbeatWait::Reading, ..s })
                    },
                    HeartbeatWait::Pulse => {
                        &&& action == HeartbeatActionView::Done(Ok(()))
                        &&& forall|netid: Seq<char>|
                            frame == #[trigger] encode_utf8(netid) ==> t == (ServerView {
                                servers: pulsed(s.servers, netid, now),
                                heartbeat: HeartbeatWait::Idle,
                                ..s
                            })
                        &&& !(exists|netid: Seq<char>| frame == #[trigger] encode_utf8(netid))
                            ==> t == (ServerView { heartbeat: HeartbeatWait::Idle, ..s })
                    },
                    _ => true,
                },
                HeartbeatEventView::Registration(protocol, netid, shards) => {
                    &&& action matches HeartbeatActionView::Deliver(delivery)
                        && delivery.frames.len() == 0 && delivery.body == BodyView::Frame(
                        encode_utf8("REGOK"@),
                    )
                    &&& t == (ServerView {
                        servers: added(s.servers, protocol, netid, shards, now),
                        heartbeat: HeartbeatWait::Delivery,
                        ..s
                    })
                },
                HeartbeatEventView::Sent => {
                    &&& action == HeartbeatActionView::Done(Ok(()))
                    &&& t == (ServerView { heartbeat: HeartbeatWait::Idle, ..s })
                },
                HeartbeatEventView::Failed(e) => {
                    &&& action == HeartbeatActionView::Done(Err(e))
                    &&& t == (ServerView { heartbeat: HeartbeatWait::Idle, ..s })
                },
            }
        }),
{
    if let HeartbeatEventView::Received(frame) = event {
        let t = s.heartbeat_step(event, now).0;
        law_frame_holds_text(frame, Seq::empty());
        if s.heartbeat == HeartbeatWait::Pulse {
            assert forall|netid: Seq<char>| frame == #[trigger] encode_utf8(netid) implies t == (
            ServerView {
                servers: pulsed(s.servers, netid, now),
                heartbeat: HeartbeatWait::Idle,
                ..s
            }) by {
                law_frame_holds_text(frame, netid);
            }
        }
    }
}

/// Whatever the heartbeat handler asks for, it waits for each answer that there may be; and when it
/// is done, it can begin again.
pub proof fn law_heartbeat_waits_for_answers(
    s: ServerView,
    event: HeartbeatEventView,
    now: u64,
    frame: Seq<u8>,
    protocol: Protocol,
    netid: Seq<char>,
    shards: Seq<u32>,
    e: RouterError,
)
    requires
        s.expects_heartbeat(event),
    ensures
        ({
            let (t, action) = s.heartbeat_step(event, now);
            match action {
                HeartbeatActionView::Recv => t.expects_heartbeat(
                    HeartbeatEventView::Received(frame),
                ) && t.expects_heartbeat(HeartbeatEventView::Failed(e)),
                HeartbeatActionView::ReadRegistration(_) => t.expects_heartbeat(
                    HeartbeatEventView::Registration(protocol, netid, shards),
                ) && t.expects_heartbeat(HeartbeatEventView::Failed(e)),
                HeartbeatActionView::Deliver(_) => t.expects_heartbeat(HeartbeatEventView::Sent)
                    && t.expects_heartbeat(HeartbeatEventView::Failed(e)),
                HeartbeatActionView::Done(_) => t.expects_heartbeat(HeartbeatEventView::Begin),
            }
        }),
{
}

/// What each event does to the service loop: the heartbeat socket is bound to its address, then
/// the frontend socket to its own, both are announced, and from then on messages are waited for
/// and dealt with, the heartbeat before the frontend. Nothing but how far the loop has come
/// changes.
pub proof fn law_run_step(s: ServerView, event: RunEvent)
    requires
        s.expects_run(event),
    ensures
        ({
            let (t, action) = s.run_step(event);
            let to = |running: RunState| t == (ServerView { running, ..s });
            match event {
                RunEvent::Begin => to(RunState::BindHeartbeat) && action
                    == RunActionView::BindHeartbeat(s.config.hb_addr),
                RunEvent::Failed(e) => to(RunState::Stopped) && action == RunActionView::Stop(e),
                RunEvent::Readable { heartbeat: true, frontend } => to(
                    RunState::Heartbeat { frontend },
                ) && action == RunActionView::ProcessHeartbeat,
                RunEvent::Readable { heartbeat: false, frontend: true } => to(RunState::Frontend)
                    && action == RunActionView::ProcessFrontend,
                RunEvent::Readable { heartbeat: false, frontend: false } => to(RunState::Poll)
                    && action == RunActionView::Poll,
                RunEvent::Done => match s.running {
                    RunState::BindHeartbeat => to(RunState::BindFrontend) && action
                        == RunActionView::BindFrontend(s.config.fe_addr),
                    RunState::BindFrontend => to(RunState::Announce) && action
                        == RunActionView::Announce(
                        "Listening on ("@ + s.config.fe_addr + ")"@,
                        "Heartbeat on ("@ + s.config.hb_addr + ")"@,
                    ),
                    RunState::Heartbeat { frontend: true } => to(RunState::Frontend) && action
                        == RunActionView::ProcessFrontend,
                    _ => to(RunState::Poll) && action == RunActionView::Poll,
                },
            }
        }),
{
}

/// Whatever the service loop asks for, it waits for each answer that there may be; and when it has
/// stopped, it can begin again.
pub proof fn law_run_waits_for_answers(
    s: ServerView,
    event: RunEvent,
    heartbeat: bool,
    frontend: bool,
    e: RouterError,
)
    requires
        s.expects_run(event),
    ensures
        (ServerView { running: RunState::Idle, ..s }).expects_run(RunEvent::Begin),
        ({
            let (t, action) = s.run_step(event);
            match action {
                RunActionView::Poll => t.expects_run(RunEvent::Readable { heartbeat, frontend })
                    && t.expects_run(RunEvent::Failed(e)),
                RunActionView::Announce(_, _) => t.expects_run(RunEvent::Done),
                RunActionView::Stop(_) => t.expects_run(RunEvent::Begin),
                _ => t.expects_run(RunEvent::Done) && t.expects_run(RunEvent::Failed(e)),
            }
        }),
{
}

/// What comes in over the network is seen as it is.
pub proof fn law_network_is_seen(
    msg: Msg,
    e: NetError,
    reg: ServerReg,
    frames: Seq<Vec<u8>>,
    config: Config,
)
    ensures
        msg@.message_id == msg.message_id@,
        msg@.route_info == msg.route_info,
        msg@.body == msg.body@,
        msg@.wire == msg.wire@,
        e@.code == e.code,
        e@.msg == e.msg@,
        reg@.endpoint == reg.endpoint@,
        reg@.renewed == reg.renewed,
        frames_view(frames).len() == frames.len(),
        forall|i: int|
            0 <= i < frames.len() ==> #[trigger] frames_view(frames)[i] == frames[i]@,
        config@.fe_addr == config.fe_addr@,
        config@.hb_addr == config.hb_addr@,
{
}

/// What happens at the sockets is seen as it is.
pub proof fn law_router_events_are_seen(frontend: FrontendEvent, heartbeat: HeartbeatEvent)
    ensures
        match frontend {
            FrontendEvent::Begin => frontend@ == FrontendEventView::Begin,
            FrontendEvent::Received(frame) => frontend@ == FrontendEventView::Received(frame@),
            FrontendEvent::Parsed(msg) => frontend@ == FrontendEventView::Parsed(msg@),
            FrontendEvent::Unparsed => frontend@ == FrontendEventView::Unparsed,
            FrontendEvent::ConnectRead => frontend@ == FrontendEventView::ConnectRead,
            FrontendEvent::DisconnectRead(protocol, netid) => frontend@
                == FrontendEventView::DisconnectRead(protocol, netid@),
            FrontendEvent::Sent => frontend@ == FrontendEventView::Sent,
            FrontendEvent::Failed(e) => frontend@ == FrontendEventView::Failed(e),
        },
        match heartbeat {
            HeartbeatEvent::Begin => heartbeat@ == HeartbeatEventView::Begin,
            HeartbeatEvent::Received(frame) => heartbeat@ == HeartbeatEventView::Received(frame@),
            HeartbeatEvent::Registration(protocol, netid, shards) => heartbeat@
                == HeartbeatEventView::Registration(protocol, netid@, shards@),
            HeartbeatEvent::Sent => heartbeat@ == HeartbeatEventView::Sent,
            HeartbeatEvent::Failed(e) => heartbeat@ == HeartbeatEventView::Failed(e),
        },
{
}

/// What the router asks for is seen as it is.
pub proof fn law_router_actions_are_seen(
    frontend: FrontendAction,
    heartbeat: HeartbeatAction,
    run: RunAction,
    delivery: Delivery,
    body: Body,
)
    ensures
        match frontend {
            FrontendAction::Recv => frontend@ == FrontendActionView::Recv,
            FrontendAction::Parse(frame) => frontend@ == FrontendActionView::Parse(frame@),
            FrontendAction::ReadConnect(bytes) => frontend@ == FrontendActionView::ReadConnect(
                bytes@,
            ),
            FrontendAction::ReadDisconnect(bytes) => frontend@
                == FrontendActionView::ReadDisconnect(bytes@),
            FrontendAction::Deliver(sent, must) => frontend@ == FrontendActionView::Deliver(
                sent@,
                must,
            ),
            FrontendAction::Done(result) => frontend@ == FrontendActionView::Done(result),
        },
        match heartbeat {
            HeartbeatAction::Recv => heartbeat@ == HeartbeatActionView::Recv,
            HeartbeatAction::ReadRegistration(frame) => heartbeat@
                == HeartbeatActionView::ReadRegistration(frame@),
            HeartbeatAction::Deliver(sent) => heartbeat@ == HeartbeatActionView::Deliver(sent@),
            HeartbeatAction::Done(result) => heartbeat@ == HeartbeatActionView::Done(result),
        },
        match run {
            RunAction::BindHeartbeat(addr) => run@ == RunActionView::BindHeartbeat(addr@),
            RunAction::BindFrontend(addr) => run@ == RunActionView::BindFrontend(addr@),
            RunAction::Announce(first, second) => run@ == RunActionView::Announce(first@, second@),
            RunAction::Poll => run@ == RunActionView::Poll,
            RunAction::ProcessHeartbeat => run@ == RunActionView::ProcessHeartbeat,
            RunAction::ProcessFrontend => run@ == RunActionView::ProcessFrontend,
            RunAction::Stop(e) => run@ == RunActionView::Stop(e),
        },
        delivery@.frames == frames_view(delivery.frames@),
        delivery@.body == delivery.body@,
        match body {
            Body::Frame(frame) => body@ == BodyView::Frame(frame@),
            Body::ConnectOk => body@ == BodyView::ConnectOk,
            Body::NetErr(e) => body@ == BodyView::NetErr(e@),
        },
{
}

/// The shard that may be picked for a message is one that there is, and for a message with a hash
/// it is the one that the hash leaves when divided by the number of shards. What decides is the
/// route information that the message came with.
pub proof fn law_picked_for_message(s: ServerView, msg: MsgView, route: RouteInfo, shard: u32)
    requires
        s.inv(),
        msg.route_info == Some(route),
    ensures
        s.may_pick(FrontendEventView::Parsed(msg), shard) <==> match route.hash {
            Some(hash) => shard as int == hash as int % s.shard_count as int,
            None => shard < s.shard_count,
        },
        (ServerView {
            envelope: EnvelopeView { msg: Some(msg), ..s.envelope },
            ..s
        }).route() == Some(route),
{
}

/// An envelope is full once it has as many hops as its limit; a hop is put behind those that are
/// there and changes nothing else; and taking everything out leaves the limit alone.
pub proof fn law_envelope(envelope: EnvelopeView, hop: Seq<u8>)
    ensures
        envelope.max_hops() <==> envelope.hops.len() >= envelope.limit,
        envelope.with_hop(hop).hops == envelope.hops.push(hop),
        envelope.with_hop(hop).msg == envelope.msg,
        envelope.with_hop(hop).limit == envelope.limit,
        envelope.emptied().hops.len() == 0,
        envelope.emptied().msg is None,
        envelope.emptied().limit == envelope.limit,
{
}

/// No two protocols share the number under which their registrations are kept.
pub proof fn law_protocols_are_kept_apart(a: Protocol, b: Protocol)
    ensures
        a.key() == b.key() <==> a == b,
{
}

} // verus!
