//! What holds of the router as a whole.
use vstd::prelude::*;
use vstd::utf8::encode_utf8;

use crate::net::{text_of, MsgView, Protocol, RouteInfo};
use crate::registry::{added, dropped, pulsed, Claims};
use crate::router_model::{
    addressed, along, no_shard, picks, routed, BodyView, FrontendActionView, FrontendEventView,
    FrontendWait, HeartbeatActionView, HeartbeatEventView, HeartbeatWait, RouterError,
    RunActionView, RunEvent, RunState, ServerView, SocketState,
};

verus! {

/// Every step of the frontend keeps the invariant.
pub proof fn law_frontend_keeps_invariant(s: ServerView, event: FrontendEventView, shard: u32)
    requires
        s.inv(),
        s.expects(event),
    ensures
        s.frontend_step(event, shard).0.inv(),
{
}

/// Every step of the heartbeat handler leaves the frontend's message alone, and keeps the
/// invariant.
pub proof fn law_heartbeat_keeps_frontend(s: ServerView, event: HeartbeatEventView, now: u64)
    requires
        s.expects_heartbeat(event),
    ensures
        ({
            let t = s.heartbeat_step(event, now).0;
            &&& t.state == s.state
            &&& t.envelope == s.envelope
            &&& t.frontend == s.frontend
            &&& s.inv() ==> t.inv()
        }),
{
}

/// Every step of the service loop leaves everything but its own progress alone, and keeps the
/// invariant.
pub proof fn law_run_keeps_messages(s: ServerView, event: RunEvent)
    requires
        s.expects_run(event),
    ensures
        ({
            let t = s.run_step(event).0;
            &&& t == (ServerView { running: t.running, ..s })
            &&& s.inv() ==> t.inv()
        }),
{
}

/// When the work on a message ends without an error, nothing of it is left.
pub proof fn law_done_is_clean(s: ServerView, event: FrontendEventView, shard: u32)
    requires
        s.inv(),
        s.expects(event),
        s.frontend_step(event, shard).1 == FrontendActionView::Done(Ok(())),
    ensures
        ({
            let t = s.frontend_step(event, shard).0;
            &&& t.state == SocketState::Ready
            &&& t.envelope == s.envelope.emptied()
            &&& t.frontend == FrontendWait::Idle
        }),
{
}

/// How much work on a message is left at most.
pub open spec fn work_left(s: ServerView) -> nat {
    match s.frontend {
        FrontendWait::Idle => 0,
        FrontendWait::Delivery { .. } => 1,
        FrontendWait::Connect | FrontendWait::Disconnect => 2,
        FrontendWait::Message => 3,
        FrontendWait::Frame => match s.state {
            SocketState::Ready | SocketState::Hops => (6 + s.envelope.limit
                - s.envelope.hops.len()) as nat,
            SocketState::Control => 5,
            _ => 4,
        },
    }
}

/// The work on a message comes to an end: each event leaves less of it, and there is nothing
/// left exactly when the frontend says that it is done.
pub proof fn law_frontend_ends(s: ServerView, event: FrontendEventView, shard: u32)
    requires
        s.inv(),
        s.expects(event),
    ensures
        ({
            let (t, action) = s.frontend_step(event, shard);
            &&& event != FrontendEventView::Begin ==> work_left(t) < work_left(s)
            &&& work_left(t) <= 6 + s.envelope.limit
            &&& work_left(t) == 0 <==> action is Done
        }),
{
}

/// The state after frames were received one after the other, and what the last one brought
/// about.
pub open spec fn fed(s: ServerView, frames: Seq<Seq<u8>>) -> (ServerView, FrontendActionView)
    decreases frames.len(),
{
    if frames.len() == 0 {
        (s, FrontendActionView::Recv)
    } else {
        fed(s, frames.drop_last()).0.received(frames.last())
    }
}

/// Whether after each of the frames but the last the frontend asks for another one.
pub open spec fn keeps_asking(s: ServerView, frames: Seq<Seq<u8>>) -> bool {
    forall|n: int| 0 <= n < frames.len() ==> (#[trigger] fed(s, frames.take(n))).1
        == FrontendActionView::Recv
}

/// Whether the frontend waits for the first frame of a message.
pub open spec fn at_start(s: ServerView) -> bool {
    s.inv() && s.state == SocketState::Ready && s.frontend == FrontendWait::Frame
}

/// Whether `hops` can stand at the head of a message: none is empty, there is at least one, and
/// there are fewer than the limit.
pub open spec fn proper_hops(s: ServerView, hops: Seq<Seq<u8>>) -> bool {
    &&& 0 < hops.len() < s.envelope.limit
    &&& forall|i: int| 0 <= i < hops.len() ==> (#[trigger] hops[i]).len() > 0
}

/// The router after it took in `hops`, in a socket state.
pub open spec fn holding(s: ServerView, hops: Seq<Seq<u8>>, state: SocketState) -> ServerView {
    ServerView {
        state,
        envelope: crate::envelope::EnvelopeView { hops, ..s.envelope },
        frontend: FrontendWait::Frame,
        ..s
    }
}

/// The frame of a short text that is read back as that text.
proof fn lemma_text_frame(text: Seq<char>)
    ensures
        text_of(encode_utf8(text)) == Some(text),
{
    broadcast use vstd::utf8::group_utf8_lib;

}

/// A frame fed last.
proof fn lemma_fed_push(s: ServerView, frames: Seq<Seq<u8>>, frame: Seq<u8>)
    requires
        keeps_asking(s, frames),
        fed(s, frames).1 == FrontendActionView::Recv,
    ensures
        fed(s, frames.push(frame)) == fed(s, frames).0.received(frame),
        keeps_asking(s, frames.push(frame)),
{
    let more = frames.push(frame);
    assert(more.drop_last() =~= frames);
    assert forall|n: int| 0 <= n < more.len() implies (#[trigger] fed(s, more.take(n))).1
        == FrontendActionView::Recv by {
        if n < frames.len() {
            assert(more.take(n) =~= frames.take(n));
        } else {
            assert(more.take(n) =~= frames);
        }
    }
}

/// Hops are taken in one by one.
proof fn lemma_fed_hops(s: ServerView, hops: Seq<Seq<u8>>)
    requires
        at_start(s),
        proper_hops(s, hops),
    ensures
        fed(s, hops) == (holding(s, hops, SocketState::Hops), FrontendActionView::Recv),
        keeps_asking(s, hops),
    decreases hops.len(),
{
    let first = hops.drop_last();
    let last = hops.last();
    assert(hops =~= first.push(last));
    assert(hops[hops.len() - 1].len() > 0);
    assert(s.envelope.hops =~= Seq::empty());
    if first.len() == 0 {
        assert(first =~= Seq::empty());
        assert(fed(s, first) == (s, FrontendActionView::Recv));
        lemma_fed_push(s, first, last);
        assert(s.envelope.with_hop(last).hops =~= hops);
    } else {
        assert forall|i: int| 0 <= i < first.len() implies (#[trigger] first[i]).len() > 0 by {
            assert(hops[i].len() > 0);
        }
        lemma_fed_hops(s, first);
        lemma_fed_push(s, first, last);
        assert(fed(s, first).0.envelope.with_hop(last).hops =~= hops);
    }
    assert(fed(s, hops).0 =~= holding(s, hops, SocketState::Hops));
}

/// The hops and the empty frame that ends them bring the router to the control frame, with
/// exactly these hops in the envelope.
pub proof fn law_hops_are_kept(s: ServerView, hops: Seq<Seq<u8>>)
    requires
        at_start(s),
        proper_hops(s, hops),
    ensures
        fed(s, hops.push(Seq::empty())) == (
            holding(s, hops, SocketState::Control),
            FrontendActionView::Recv,
        ),
        keeps_asking(s, hops.push(Seq::empty())),
{
    lemma_fed_hops(s, hops);
    lemma_fed_push(s, hops, Seq::empty());
}

/// A request is read whole: after its hops, the empty frame, the control frame and a body that
/// is not empty, the body is to be parsed and the envelope holds the hops.
pub proof fn law_request_is_read(s: ServerView, hops: Seq<Seq<u8>>, body: Seq<u8>)
    requires
        at_start(s),
        proper_hops(s, hops),
        body.len() > 0,
    ensures
        ({
            let frames = hops.push(Seq::empty()).push(encode_utf8("RQ"@)).push(body);
            &&& keeps_asking(s, frames)
            &&& fed(s, frames).1 == FrontendActionView::Parse(body)
            &&& fed(s, frames).0 == (ServerView {
                frontend: FrontendWait::Message,
                ..holding(s, hops, SocketState::Routing)
            })
        }),
{
    law_hops_are_kept(s, hops);
    lemma_text_frame("RQ"@);
    reveal_strlit("RQ");
    reveal_strlit("RP");
    assert("RQ"@[1] != "RP"@[1]);
    let head = hops.push(Seq::empty());
    lemma_fed_push(s, head, encode_utf8("RQ"@));
    lemma_fed_push(s, head.push(encode_utf8("RQ"@)), body);
}

/// A request is dealt with whole: once it is read and holds a message for a service, it is sent
/// on with its own hops, or refused along them, and when that is sent nothing of it is left and
/// no claim has changed.
pub proof fn law_request_is_routed(
    s: ServerView,
    hops: Seq<Seq<u8>>,
    body: Seq<u8>,
    msg: MsgView,
    service: u32,
    shard: u32,
)
    requires
        at_start(s),
        proper_hops(s, hops),
        body.len() > 0,
        msg.route_info is Some,
        msg.route_info.unwrap().protocol == Protocol::Service(service),
    ensures
        ({
            let frames = hops.push(Seq::empty()).push(encode_utf8("RQ"@)).push(body);
            let read = fed(s, frames).0;
            let (sending, sent) = read.frontend_step(FrontendEventView::Parsed(msg), shard);
            let (end, done) = sending.frontend_step(FrontendEventView::Sent, shard);
            &&& read.expects(FrontendEventView::Parsed(msg))
            &&& sent == FrontendActionView::Deliver(
                routed(s.servers, Protocol::Service(service), shard, hops, msg.wire),
                false,
            )
            &&& done == FrontendActionView::Done(Ok(()))
            &&& end == (ServerView {
                frontend: FrontendWait::Idle,
                envelope: s.envelope.emptied(),
                ..s
            })
        }),
{
    law_request_is_read(s, hops, body);
}

/// A client that connects is accepted.
pub proof fn law_connection_is_accepted(s: ServerView, msg: MsgView, shard: u32)
    requires
        s.inv(),
        s.frontend == FrontendWait::Message,
        msg.route_info is Some,
        msg.route_info.unwrap().protocol == Protocol::RouteSrv,
        msg.message_id == "Connect"@,
    ensures
        ({
            let (s1, a1) = s.frontend_step(FrontendEventView::Parsed(msg), shard);
            let (s2, a2) = s1.frontend_step(FrontendEventView::ConnectRead, shard);
            let (s3, a3) = s2.frontend_step(FrontendEventView::Sent, shard);
            &&& a1 == FrontendActionView::ReadConnect(msg.body)
            &&& a2 matches FrontendActionView::Deliver(delivery, must) && delivery.frames.len()
                == 0 && delivery.body == BodyView::ConnectOk && must
            &&& a3 == FrontendActionView::Done(Ok(()))
            &&& s3.servers == s.servers
        }),
{
}

/// A server that disconnects loses its claims on the protocol that it leaves, and nothing is
/// sent.
pub proof fn law_disconnection_drops_claims(
    s: ServerView,
    msg: MsgView,
    shard: u32,
    protocol: Protocol,
    netid: Seq<char>,
)
    requires
        s.inv(),
        s.frontend == FrontendWait::Message,
        msg.route_info is Some,
        msg.route_info.unwrap().protocol == Protocol::RouteSrv,
        msg.message_id == "Disconnect"@,
    ensures
        ({
            let (s1, a1) = s.frontend_step(FrontendEventView::Parsed(msg), shard);
            let (s2, a2) = s1.frontend_step(
                FrontendEventView::DisconnectRead(protocol, netid),
                shard,
            );
            &&& a1 == FrontendActionView::ReadDisconnect(msg.body)
            &&& a2 == FrontendActionView::Done(Ok(()))
            &&& s2.servers == dropped(s.servers, protocol, netid)
        }),
{
    reveal_strlit("Connect");
    reveal_strlit("Disconnect");
    assert("Connect"@.len() != "Disconnect"@.len());
}

/// A reply is passed on whole: the server's own address is taken off, and the rest of the hops
/// carry the body back.
pub proof fn law_reply_is_forwarded(
    s: ServerView,
    server: Seq<u8>,
    hops: Seq<Seq<u8>>,
    body: Seq<u8>,
)
    requires
        at_start(s),
        proper_hops(s, seq![server] + hops),
    ensures
        ({
            let frames = (seq![server] + hops).push(Seq::empty()).push(encode_utf8("RP"@)).push(
                body,
            );
            &&& keeps_asking(s, frames)
            &&& fed(s, frames).1 == FrontendActionView::Deliver(
                along(hops, BodyView::Frame(body)),
                true,
            )
        }),
{
    let all = seq![server] + hops;
    law_hops_are_kept(s, all);
    lemma_text_frame("RP"@);
    let head = all.push(Seq::empty());
    lemma_fed_push(s, head, encode_utf8("RP"@));
    lemma_fed_push(s, head.push(encode_utf8("RP"@)), body);
    assert(all.skip(1) =~= hops);
}

/// A message whose hops reach the limit is given up before its content is looked at, and
/// nothing is sent.
pub proof fn law_too_many_hops(s: ServerView, hops: Seq<Seq<u8>>)
    requires
        at_start(s),
        hops.len() == s.envelope.limit,
        forall|i: int| 0 <= i < hops.len() ==> (#[trigger] hops[i]).len() > 0,
    ensures
        keeps_asking(s, hops),
        fed(s, hops) == (
            ServerView { frontend: FrontendWait::Idle, envelope: s.envelope.emptied(), ..s },
            FrontendActionView::Done(Ok(())),
        ),
{
    let first = hops.drop_last();
    let last = hops.last();
    assert(hops =~= first.push(last));
    assert(hops[hops.len() - 1].len() > 0);
    if first.len() == 0 {
        assert(first =~= Seq::empty());
        lemma_fed_push(s, first, last);
    } else {
        assert forall|i: int| 0 <= i < first.len() implies (#[trigger] first[i]).len() > 0 by {
            assert(hops[i].len() > 0);
        }
        lemma_fed_hops(s, first);
        lemma_fed_push(s, first, last);
    }
    assert(fed(s, hops).0 =~= (ServerView {
        frontend: FrontendWait::Idle,
        envelope: s.envelope.emptied(),
        ..s
    }));
}

/// A message that does not begin with an identity, whose control frame is neither of the two,
/// or whose request has no body, is given up and nothing is sent.
pub proof fn law_malformed_is_given_up(s: ServerView, frame: Seq<u8>)
    requires
        s.inv(),
        s.frontend == FrontendWait::Frame,
        (s.state == SocketState::Ready && frame.len() == 0) || (s.state == SocketState::Control
            && text_of(frame) != Some("RP"@) && text_of(frame) != Some("RQ"@)) || (s.state
            == SocketState::Routing && frame.len() == 0),
    ensures
        s.frontend_step(FrontendEventView::Received(frame), 0) == s.cleaned(),
{
}

/// A message without route information, and one to the router that it does not know, are given
/// up and nothing is sent.
pub proof fn law_unroutable_is_given_up(s: ServerView, msg: MsgView, shard: u32)
    requires
        s.inv(),
        s.frontend == FrontendWait::Message,
        msg.route_info is None || (msg.route_info.unwrap().protocol == Protocol::RouteSrv
            && msg.message_id != "Connect"@ && msg.message_id != "Disconnect"@),
    ensures
        s.frontend_step(FrontendEventView::Parsed(msg), shard) == s.cleaned(),
{
    assert(s.frontend_step(FrontendEventView::Parsed(msg), shard).0 =~= s.cleaned().0);
}

/// The way there is the way back: a reply that comes from the server with the hops that a
/// request was passed on with goes to the sender of the request.
pub proof fn law_reply_reaches_sender(
    claims: Claims,
    protocol: Protocol,
    shard: u32,
    hops: Seq<Seq<u8>>,
    wire: Seq<u8>,
    s: ServerView,
    reply: Seq<u8>,
)
    requires
        claims.contains_key(protocol) && claims[protocol].contains_key(shard),
        at_start(s),
        proper_hops(s, routed(claims, protocol, shard, hops, wire).frames.drop_last()),
    ensures
        fed(
            s,
            routed(claims, protocol, shard, hops, wire).frames.push(encode_utf8("RP"@)).push(reply),
        ).1 == FrontendActionView::Deliver(along(hops, BodyView::Frame(reply)), true),
{
    let server = encode_utf8(claims[protocol][shard].endpoint);
    let frames = routed(claims, protocol, shard, hops, wire).frames;
    assert(frames.drop_last() =~= seq![server] + hops);
    assert(frames =~= (seq![server] + hops).push(Seq::empty()));
    law_reply_is_forwarded(s, server, hops, reply);
}

/// In what is sent back along the hops of a message the empty frame that ends the addresses is
/// the only empty one.
pub proof fn law_addresses_end_at_empty_frame(s: ServerView, body: BodyView)
    requires
        s.inv(),
    ensures
        ({
            let frames = along(s.envelope.hops, body).frames;
            forall|i: int|
                0 <= i < frames.len() ==> ((#[trigger] frames[i]).len() == 0 <==> i == frames.len()
                    - 1)
        }),
{
    let hops = s.envelope.hops;
    let frames = along(hops, body).frames;
    assert forall|i: int| 0 <= i < frames.len() implies ((#[trigger] frames[i]).len() == 0 <==> i
        == frames.len() - 1) by {
        if i < hops.len() {
            assert(frames[i] == hops[i]);
            assert(hops[i].len() > 0);
        }
    }
}

/// A shard that is picked exists, and a hash always picks the same one.
pub proof fn law_hash_decides_shard(route: RouteInfo, shard_count: u32, a: u32, b: u32)
    requires
        shard_count > 0,
        picks(route, shard_count, a),
        picks(route, shard_count, b),
    ensures
        a < shard_count,
        route.hash is Some ==> a == b,
{
}

/// A message for a shard goes to the server that registered for it last.
pub proof fn law_registered_is_routed(
    claims: Claims,
    protocol: Protocol,
    netid: Seq<char>,
    shards: Seq<u32>,
    now: u64,
    shard: u32,
    hops: Seq<Seq<u8>>,
    wire: Seq<u8>,
)
    requires
        shards.contains(shard),
    ensures
        routed(added(claims, protocol, netid, shards, now), protocol, shard, hops, wire)
            == addressed(netid, hops, BodyView::Frame(wire)),
{
}

/// A registration changes nothing for another protocol, nor for the shards that it does not
/// name, except that a protocol that was unknown is known from then on.
pub proof fn law_registration_keeps_others(
    claims: Claims,
    protocol: Protocol,
    netid: Seq<char>,
    shards: Seq<u32>,
    now: u64,
    other: Protocol,
    shard: u32,
    hops: Seq<Seq<u8>>,
    wire: Seq<u8>,
)
    requires
        other != protocol || !shards.contains(shard),
    ensures
        routed(added(claims, protocol, netid, shards, now), other, shard, hops, wire) == if other
            == protocol && !claims.contains_key(protocol) {
            along(hops, no_shard("rt:route:1"@))
        } else {
            routed(claims, other, shard, hops, wire)
        },
{
}

/// A server that left a protocol is sent nothing more of it, and its shards are refused.
pub proof fn law_dropped_is_not_routed(
    claims: Claims,
    protocol: Protocol,
    netid: Seq<char>,
    shard: u32,
    hops: Seq<Seq<u8>>,
    wire: Seq<u8>,
)
    requires
        claims.contains_key(protocol),
    ensures
        ({
            let left = dropped(claims, protocol, netid);
            &&& left.contains_key(protocol)
            &&& left[protocol].contains_key(shard) ==> left[protocol][shard].endpoint != netid
            &&& claims[protocol].contains_key(shard) && claims[protocol][shard].endpoint == netid
                ==> routed(left, protocol, shard, hops, wire) == along(
                hops,
                no_shard("rt:route:1"@),
            )
        }),
{
}

/// A server that leaves changes nothing for another protocol, nor for the shards of another
/// server.
pub proof fn law_drop_keeps_others(
    claims: Claims,
    protocol: Protocol,
    netid: Seq<char>,
    other: Protocol,
    shard: u32,
    hops: Seq<Seq<u8>>,
    wire: Seq<u8>,
)
    requires
        other != protocol || !(claims.contains_key(protocol) && claims[protocol].contains_key(shard)
            && claims[protocol][shard].endpoint == netid),
    ensures
        routed(dropped(claims, protocol, netid), other, shard, hops, wire) == routed(
            claims,
            other,
            shard,
            hops,
            wire,
        ),
{
}

/// A pulse changes no route.
pub proof fn law_pulse_keeps_routes(
    claims: Claims,
    netid: Seq<char>,
    now: u64,
    protocol: Protocol,
    shard: u32,
    hops: Seq<Seq<u8>>,
    wire: Seq<u8>,
)
    ensures
        routed(pulsed(claims, netid, now), protocol, shard, hops, wire) == routed(
            claims,
            protocol,
            shard,
            hops,
            wire,
        ),
{
}

/// A request that no server services is refused to its sender.
pub proof fn law_unserviced_is_refused(
    claims: Claims,
    protocol: Protocol,
    shard: u32,
    hops: Seq<Seq<u8>>,
    wire: Seq<u8>,
)
    requires
        !(claims.contains_key(protocol) && claims[protocol].contains_key(shard)),
    ensures
        ({
            let delivery = routed(claims, protocol, shard, hops, wire);
            &&& delivery.frames == hops.push(Seq::empty())
            &&& delivery.body matches BodyView::NetErr(e) && e.code
                == crate::net::ErrCode::NoShard
        }),
{
}

/// A server registers by the command and its registration, is answered that it is registered,
/// and holds its shards from then on.
pub proof fn law_registration_conversation(
    s: ServerView,
    frame: Seq<u8>,
    protocol: Protocol,
    netid: Seq<char>,
    shards: Seq<u32>,
    now: u64,
)
    requires
        s.heartbeat == HeartbeatWait::Idle,
    ensures
        ({
            let (s1, a1) = s.heartbeat_step(HeartbeatEventView::Begin, now);
            let (s2, a2) = s1.heartbeat_step(
                HeartbeatEventView::Received(encode_utf8("R"@)),
                now,
            );
            let (s3, a3) = s2.heartbeat_step(HeartbeatEventView::Received(frame), now);
            let (s4, a4) = s3.heartbeat_step(
                HeartbeatEventView::Registration(protocol, netid, shards),
                now,
            );
            let (s5, a5) = s4.heartbeat_step(HeartbeatEventView::Sent, now);
            &&& a1 == HeartbeatActionView::Recv
            &&& a2 == HeartbeatActionView::Recv
            &&& a3 == HeartbeatActionView::ReadRegistration(frame)
            &&& a4 matches HeartbeatActionView::Deliver(delivery) && delivery.frames.len() == 0
                && delivery.body == BodyView::Frame(encode_utf8("REGOK"@))
            &&& a5 == HeartbeatActionView::Done(Ok(()))
            &&& s5 == (ServerView {
                servers: added(s.servers, protocol, netid, shards, now),
                ..s
            })
        }),
{
    lemma_text_frame("R"@);
    reveal_strlit("R");
}

/// A pulse names a server, is not answered, and changes nothing but when its claims were
/// renewed.
pub proof fn law_pulse_conversation(s: ServerView, netid: Seq<char>, now: u64)
    requires
        s.heartbeat == HeartbeatWait::Idle,
    ensures
        ({
            let (s1, a1) = s.heartbeat_step(HeartbeatEventView::Begin, now);
            let (s2, a2) = s1.heartbeat_step(
                HeartbeatEventView::Received(encode_utf8("P"@)),
                now,
            );
            let (s3, a3) = s2.heartbeat_step(
                HeartbeatEventView::Received(encode_utf8(netid)),
                now,
            );
            &&& a1 == HeartbeatActionView::Recv
            &&& a2 == HeartbeatActionView::Recv
            &&& a3 == HeartbeatActionView::Done(Ok(()))
            &&& s3 == (ServerView { servers: pulsed(s.servers, netid, now), ..s })
        }),
{
    lemma_text_frame("P"@);
    lemma_text_frame(netid);
    reveal_strlit("P");
    reveal_strlit("R");
    assert("P"@[0] != "R"@[0]);
}

/// A connection that makes itself known by a name that is no command is asked to register, and
/// no claim changes.
pub proof fn law_new_connection(s: ServerView, ident: Seq<char>, now: u64)
    requires
        s.heartbeat == HeartbeatWait::Idle,
        ident.len() > 0,
        ident != "R"@,
        ident != "P"@,
    ensures
        ({
            let (s1, a1) = s.heartbeat_step(HeartbeatEventView::Begin, now);
            let (s2, a2) = s1.heartbeat_step(
                HeartbeatEventView::Received(encode_utf8(ident)),
                now,
            );
            let (s3, a3) = s2.heartbeat_step(HeartbeatEventView::Sent, now);
            &&& a1 == HeartbeatActionView::Recv
            &&& a2 matches HeartbeatActionView::Deliver(delivery) && delivery.frames
                == seq![encode_utf8(ident), Seq::<u8>::empty()] && delivery.body
                == BodyView::Frame(encode_utf8("REG"@))
            &&& a3 == HeartbeatActionView::Done(Ok(()))
            &&& s3 == s
        }),
{
    lemma_text_frame(ident);
}

/// In a round in which both sockets have messages the heartbeat comes first, and the next round
/// begins after the frontend.
pub proof fn law_heartbeat_comes_first(s: ServerView)
    requires
        s.running == RunState::Poll,
    ensures
        ({
            let (s1, a1) = s.run_step(RunEvent::Readable { heartbeat: true, frontend: true });
            let (s2, a2) = s1.run_step(RunEvent::Done);
            let (s3, a3) = s2.run_step(RunEvent::Done);
            &&& a1 == RunActionView::ProcessHeartbeat
            &&& a2 == RunActionView::ProcessFrontend
            &&& a3 == RunActionView::Poll
            &&& s3 == s
        }),
{
}

/// The service loop ends on an error and on nothing else, and with that error.
pub proof fn law_only_errors_stop(s: ServerView, event: RunEvent, e: RouterError)
    requires
        s.expects_run(event),
    ensures
        s.run_step(event).1 == RunActionView::Stop(e) <==> event == RunEvent::Failed(e),
{
}

/// A router that was stopped can be run again, and begins as one that never ran: it keeps the
/// servers that it knows, and binds its sockets first.
pub proof fn law_stopped_runs_again(s: ServerView, e: RouterError)
    requires
        s.expects_run(RunEvent::Failed(e)),
    ensures
        ({
            let stopped = s.run_step(RunEvent::Failed(e)).0;
            &&& stopped.expects_run(RunEvent::Begin)
            &&& stopped.servers == s.servers
            &&& stopped.run_step(RunEvent::Begin) == (ServerView {
                running: RunState::Idle,
                ..s
            }).run_step(RunEvent::Begin)
        }),
{
}

} // verus!
