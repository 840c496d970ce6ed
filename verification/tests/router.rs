use habitat_builder::envelope::Envelope;
use habitat_builder::net::{ErrCode, Msg, Protocol, RouteInfo};
use habitat_builder::registry::RegConflict;
use habitat_builder::router_model::{RouterError, RunEvent};
use habitat_builder::server::{
    registration_reply, shard_for, Body, Config, Delivery, FrontendAction, FrontendEvent,
    HeartbeatAction, HeartbeatEvent, RunAction, Server,
};

const JOBS: Protocol = Protocol::Service(4);

fn config(fe: &str, hb: &str) -> Config {
    Config { fe_addr: fe.to_string(), hb_addr: hb.to_string() }
}

fn server() -> Server {
    Server::new(config("tcp://fe", "tcp://hb"), 4, 128)
}

fn frame(text: &str) -> Vec<u8> {
    text.as_bytes().to_vec()
}

fn frames(texts: &[&str]) -> Vec<Vec<u8>> {
    texts.iter().map(|text| frame(text)).collect()
}

fn message(id: &str, route_info: Option<RouteInfo>) -> Msg {
    Msg { message_id: id.to_string(), route_info, body: frame("body"), wire: frame("wire") }
}

fn to(protocol: Protocol, hash: Option<u64>) -> Option<RouteInfo> {
    Some(RouteInfo { protocol, hash })
}

fn register(server: &mut Server, protocol: Protocol, netid: &str, shards: Vec<u32>, now: u64) {
    server.process_heartbeat(HeartbeatEvent::Begin, now);
    server.process_heartbeat(HeartbeatEvent::Received(frame("R")), now);
    let action = server.process_heartbeat(HeartbeatEvent::Received(frame("reg")), now);
    assert!(matches!(action, HeartbeatAction::ReadRegistration(bytes) if bytes == frame("reg")));
    let event = HeartbeatEvent::Registration(protocol, netid.to_string(), shards);
    match server.process_heartbeat(event, now) {
        HeartbeatAction::Deliver(delivery) => {
            assert!(delivery.frames.is_empty());
            assert!(matches!(delivery.body, Body::Frame(text) if text == frame("REGOK")));
        }
        other => panic!("{:?}", other),
    }
    let action = server.process_heartbeat(HeartbeatEvent::Sent, now);
    assert!(matches!(action, HeartbeatAction::Done(Ok(()))));
}

/// Feeds frames, each of which but the last brings a request for another one.
fn feed(server: &mut Server, texts: &[&str]) -> FrontendAction {
    let mut action = server.process_frontend(FrontendEvent::Begin);
    for text in texts {
        assert!(matches!(action, FrontendAction::Recv), "{:?}", action);
        action = server.process_frontend(FrontendEvent::Received(frame(text)));
    }
    action
}

fn delivery(action: FrontendAction) -> (Delivery, bool) {
    match action {
        FrontendAction::Deliver(delivery, must) => (delivery, must),
        other => panic!("{:?}", other),
    }
}

fn is_done(action: FrontendAction) -> bool {
    matches!(action, FrontendAction::Done(Ok(())))
}

/// Has a request with two hops parsed as `msg`.
fn request(server: &mut Server, msg: Msg) -> FrontendAction {
    match feed(server, &["me", "you", "", "RQ", "raw"]) {
        FrontendAction::Parse(bytes) => assert_eq!(bytes, frame("raw")),
        other => panic!("{:?}", other),
    }
    server.process_frontend(FrontendEvent::Parsed(msg))
}

#[test]
fn a_request_is_routed_to_the_server_of_its_shard() {
    let mut server = server();
    register(&mut server, JOBS, "job-1", vec![0, 2, 4], 1);
    register(&mut server, JOBS, "job-2", vec![1, 3], 1);
    let action = request(&mut server, message("JobGet", to(JOBS, Some(131))));
    let (sent, must) = delivery(action);
    assert!(!must);
    assert_eq!(sent.frames, frames(&["job-2", "me", "you", ""]));
    assert!(matches!(sent.body, Body::Frame(bytes) if bytes == frame("wire")));
    assert!(is_done(server.process_frontend(FrontendEvent::Sent)));
    let (sent, _) = delivery(request(&mut server, message("JobGet", to(JOBS, Some(130)))));
    assert_eq!(sent.frames, frames(&["job-1", "me", "you", ""]));
}

#[test]
fn a_request_for_a_shard_without_server_is_refused() {
    let mut server = server();
    register(&mut server, JOBS, "job-1", vec![0], 1);
    let (sent, must) = delivery(request(&mut server, message("JobGet", to(JOBS, Some(1)))));
    assert!(!must);
    assert_eq!(sent.frames, frames(&["me", "you", ""]));
    match sent.body {
        Body::NetErr(e) => {
            assert_eq!(e.code, ErrCode::NoShard);
            assert_eq!(e.msg, "rt:route:1");
        }
        other => panic!("{:?}", other),
    }
}

#[test]
fn a_request_for_an_unknown_protocol_is_refused() {
    let mut server = server();
    let (sent, _) = delivery(request(&mut server, message("JobGet", to(JOBS, Some(1)))));
    assert_eq!(sent.frames, frames(&["me", "you", ""]));
    match sent.body {
        Body::NetErr(e) => {
            assert_eq!(e.code, ErrCode::NoShard);
            assert_eq!(e.msg, "rt:route:2");
        }
        other => panic!("{:?}", other),
    }
}

#[test]
fn a_request_without_hash_goes_to_some_shard() {
    let mut server = Server::new(config("a", "b"), 4, 3);
    register(&mut server, JOBS, "job-1", vec![0, 1, 2], 1);
    for _ in 0..50 {
        let (sent, _) = delivery(request(&mut server, message("JobGet", to(JOBS, None))));
        assert_eq!(sent.frames[0], frame("job-1"));
        assert!(is_done(server.process_frontend(FrontendEvent::Sent)));
    }
}

#[test]
fn requests_without_hash_are_spread() {
    let mut server = Server::new(config("a", "b"), 4, 2);
    register(&mut server, JOBS, "even", vec![0], 1);
    register(&mut server, JOBS, "odd", vec![1], 1);
    let mut even: u32 = 0;
    for _ in 0..200 {
        let (sent, _) = delivery(request(&mut server, message("JobGet", to(JOBS, None))));
        if sent.frames[0] == frame("even") {
            even += 1;
        }
        assert!(is_done(server.process_frontend(FrontendEvent::Sent)));
    }
    assert!(0 < even && even < 200);
}

#[test]
fn where_a_request_goes_depends_on_the_shard() {
    let mut server = server();
    register(&mut server, JOBS, "job-1", vec![0, 7], 1);
    let action = request(&mut server, message("JobGet", to(JOBS, Some(7))));
    assert!(matches!(action, FrontendAction::Deliver(_, false)));
    assert_eq!(server.select_shard(), 7);
    assert_eq!(server.route_message().frames, frames(&["job-1", "me", "you", ""]));
    assert_eq!(server.route_to(0).frames, frames(&["job-1", "me", "you", ""]));
    assert!(matches!(server.route_to(0).body, Body::Frame(bytes) if bytes == frame("wire")));
    assert_eq!(server.route_to(1).frames, frames(&["me", "you", ""]));
    assert!(matches!(server.route_to(1).body, Body::NetErr(e) if e.msg == "rt:route:1"));
}

#[test]
fn a_message_to_the_router_is_told_by_its_name() {
    let mut server = server();
    let action = request(&mut server, message("Connect", to(Protocol::RouteSrv, None)));
    assert!(matches!(action, FrontendAction::ReadConnect(_)));
    assert!(matches!(server.handle_message(),
        FrontendAction::ReadConnect(bytes) if bytes == frame("body")));
}

#[test]
fn an_envelope_takes_hops_up_to_its_limit() {
    let mut envelope = Envelope::new(2);
    assert!(!envelope.max_hops());
    envelope.add_hop(frame("a"));
    envelope.add_hop(frame("b"));
    assert!(envelope.max_hops());
    assert_eq!(envelope.hops(), &frames(&["a", "b"]));
    envelope.set_msg(message("JobGet", None));
    assert_eq!(envelope.msg().unwrap().message_id, "JobGet");
    envelope.reset();
    assert!(envelope.hops().is_empty());
    assert!(envelope.msg().is_none());
    assert!(!envelope.max_hops());
    assert!(Envelope::new(0).max_hops());
}

#[test]
fn a_hash_decides_the_shard() {
    assert_eq!(shard_for(0, 128), 0);
    assert_eq!(shard_for(127, 128), 127);
    assert_eq!(shard_for(128, 128), 0);
    assert_eq!(shard_for(u64::MAX, 128), 127);
    assert_eq!(shard_for(u64::MAX, 1), 0);
}

#[test]
fn a_reply_is_forwarded_without_the_servers_address() {
    let mut server = server();
    let (sent, must) = delivery(feed(&mut server, &["job-1", "me", "you", "", "RP", "answer"]));
    assert!(must);
    assert_eq!(sent.frames, frames(&["me", "you", ""]));
    assert!(matches!(sent.body, Body::Frame(bytes) if bytes == frame("answer")));
    assert!(is_done(server.process_frontend(FrontendEvent::Sent)));
}

#[test]
fn an_empty_reply_is_forwarded_too() {
    let mut server = server();
    let (sent, _) = delivery(feed(&mut server, &["job-1", "", "RP", ""]));
    assert_eq!(sent.frames, frames(&[""]));
    assert!(matches!(sent.body, Body::Frame(bytes) if bytes.is_empty()));
}

#[test]
fn a_message_without_identity_is_given_up() {
    let mut server = server();
    assert!(is_done(feed(&mut server, &[""])));
    assert!(matches!(server.process_frontend(FrontendEvent::Begin), FrontendAction::Recv));
}

#[test]
fn a_message_with_too_many_hops_is_given_up() {
    let mut server = server();
    assert!(is_done(feed(&mut server, &["1", "2", "3", "4"])));
    // One hop fewer than the limit passes.
    assert!(matches!(feed(&mut server, &["1", "2", "3", "", "RQ"]), FrontendAction::Recv));
}

#[test]
fn a_router_without_room_for_hops_takes_no_message() {
    let mut server = Server::new(config("a", "b"), 0, 1);
    assert!(is_done(server.process_frontend(FrontendEvent::Begin)));
}

#[test]
fn a_message_with_another_control_frame_is_given_up() {
    for control in ["", "R", "rq", "RQ ", "RPRQ", "\u{e9}"] {
        let mut server = server();
        assert!(is_done(feed(&mut server, &["me", "", control])), "{:?}", control);
    }
    let mut server = server();
    feed(&mut server, &["me", ""]);
    assert!(is_done(server.process_frontend(FrontendEvent::Received(vec![0x52, 0xff]))));
}

#[test]
fn a_request_without_body_is_given_up() {
    let mut server = server();
    assert!(is_done(feed(&mut server, &["me", "", "RQ", ""])));
}

#[test]
fn a_request_that_cannot_be_parsed_is_given_up() {
    let mut server = server();
    feed(&mut server, &["me", "", "RQ", "raw"]);
    assert!(is_done(server.process_frontend(FrontendEvent::Unparsed)));
}

#[test]
fn a_request_without_route_is_given_up() {
    let mut server = server();
    assert!(is_done(request(&mut server, message("Connect", None))));
}

#[test]
fn a_connection_is_accepted() {
    let mut server = server();
    match request(&mut server, message("Connect", to(Protocol::RouteSrv, None))) {
        FrontendAction::ReadConnect(bytes) => assert_eq!(bytes, frame("body")),
        other => panic!("{:?}", other),
    }
    let (sent, must) = delivery(server.process_frontend(FrontendEvent::ConnectRead));
    assert!(must);
    assert!(sent.frames.is_empty());
    assert!(matches!(sent.body, Body::ConnectOk));
    assert!(is_done(server.process_frontend(FrontendEvent::Sent)));
}

#[test]
fn a_server_that_disconnects_is_sent_nothing_more() {
    let mut server = server();
    register(&mut server, JOBS, "job-1", vec![0, 1], 1);
    register(&mut server, JOBS, "job-2", vec![2], 1);
    match request(&mut server, message("Disconnect", to(Protocol::RouteSrv, None))) {
        FrontendAction::ReadDisconnect(bytes) => assert_eq!(bytes, frame("body")),
        other => panic!("{:?}", other),
    }
    let event = FrontendEvent::DisconnectRead(JOBS, "job-1".to_string());
    assert!(is_done(server.process_frontend(event)));
    let (sent, _) = delivery(request(&mut server, message("JobGet", to(JOBS, Some(1)))));
    assert!(matches!(sent.body, Body::NetErr(e) if e.msg == "rt:route:1"));
    assert!(is_done(server.process_frontend(FrontendEvent::Sent)));
    let (sent, _) = delivery(request(&mut server, message("JobGet", to(JOBS, Some(2)))));
    assert_eq!(sent.frames[0], frame("job-2"));
}

#[test]
fn another_message_to_the_router_is_given_up() {
    let mut server = server();
    assert!(is_done(request(&mut server, message("JobGet", to(Protocol::RouteSrv, Some(1))))));
}

#[test]
fn a_failed_receive_leaves_the_message_where_it_is() {
    let mut server = server();
    feed(&mut server, &["me"]);
    match server.process_frontend(FrontendEvent::Failed(RouterError::Zmq("down".to_string()))) {
        FrontendAction::Done(Err(RouterError::Zmq(e))) => assert_eq!(e, "down"),
        other => panic!("{:?}", other),
    }
    let (sent, _) = delivery(feed(&mut server, &["you", "", "RP", "answer"]));
    assert_eq!(sent.frames, frames(&["you", ""]));
}

#[test]
fn a_failed_send_of_a_request_is_an_error() {
    let mut server = server();
    delivery(request(&mut server, message("JobGet", to(JOBS, Some(1)))));
    match server.process_frontend(FrontendEvent::Failed(RouterError::Protobuf("bad".to_string()))) {
        FrontendAction::Done(Err(RouterError::Protobuf(e))) => assert_eq!(e, "bad"),
        other => panic!("{:?}", other),
    }
    assert!(matches!(server.process_frontend(FrontendEvent::Begin), FrontendAction::Recv));
    assert!(is_done(server.process_frontend(FrontendEvent::Received(vec![]))));
}

#[test]
fn a_reply_goes_back_the_way_the_request_came() {
    let mut server = server();
    register(&mut server, JOBS, "job-1", vec![0], 1);
    let mut server2 = Server::new(config("a", "b"), 8, 128);
    let (sent, _) = delivery(request(&mut server, message("JobGet", to(JOBS, Some(0)))));
    assert!(matches!(server2.process_frontend(FrontendEvent::Begin), FrontendAction::Recv));
    let mut reply = sent.frames;
    reply.push(frame("RP"));
    for bytes in reply {
        let action = server2.process_frontend(FrontendEvent::Received(bytes));
        assert!(matches!(action, FrontendAction::Recv));
    }
    let action = server2.process_frontend(FrontendEvent::Received(frame("answer")));
    let (back, _) = delivery(action);
    assert_eq!(back.frames, frames(&["me", "you", ""]));
}

#[test]
fn a_heartbeat_without_text_is_ignored() {
    for bytes in [vec![], vec![0xff, 0xfe]] {
        let mut server = server();
        server.process_heartbeat(HeartbeatEvent::Begin, 0);
        let action = server.process_heartbeat(HeartbeatEvent::Received(bytes), 0);
        assert!(matches!(action, HeartbeatAction::Done(Ok(()))));
    }
}

#[test]
fn a_new_connection_is_asked_to_register() {
    let mut server = server();
    let action = server.process_heartbeat(HeartbeatEvent::Begin, 0);
    assert!(matches!(action, HeartbeatAction::Recv));
    match server.process_heartbeat(HeartbeatEvent::Received(frame("job-1")), 0) {
        HeartbeatAction::Deliver(sent) => {
            assert_eq!(sent.frames, frames(&["job-1", ""]));
            assert!(matches!(sent.body, Body::Frame(text) if text == frame("REG")));
        }
        other => panic!("{:?}", other),
    }
    let action = server.process_heartbeat(HeartbeatEvent::Sent, 0);
    assert!(matches!(action, HeartbeatAction::Done(Ok(()))));
}

#[test]
fn a_pulse_is_taken_without_answer() {
    for bytes in [frame("job-1"), vec![0xff]] {
        let mut server = server();
        register(&mut server, JOBS, "job-1", vec![0], 1);
        server.process_heartbeat(HeartbeatEvent::Begin, 2);
        let action = server.process_heartbeat(HeartbeatEvent::Received(frame("P")), 2);
        assert!(matches!(action, HeartbeatAction::Recv));
        let action = server.process_heartbeat(HeartbeatEvent::Received(bytes), 2);
        assert!(matches!(action, HeartbeatAction::Done(Ok(()))));
        let (sent, _) = delivery(request(&mut server, message("JobGet", to(JOBS, Some(0)))));
        assert_eq!(sent.frames[0], frame("job-1"));
    }
}

#[test]
fn a_failed_heartbeat_is_an_error() {
    let mut server = server();
    server.process_heartbeat(HeartbeatEvent::Begin, 0);
    server.process_heartbeat(HeartbeatEvent::Received(frame("R")), 0);
    server.process_heartbeat(HeartbeatEvent::Received(frame("junk")), 0);
    let event = HeartbeatEvent::Failed(RouterError::Protobuf("junk".to_string()));
    match server.process_heartbeat(event, 0) {
        HeartbeatAction::Done(Err(RouterError::Protobuf(e))) => assert_eq!(e, "junk"),
        other => panic!("{:?}", other),
    }
    let action = server.process_heartbeat(HeartbeatEvent::Begin, 0);
    assert!(matches!(action, HeartbeatAction::Recv));
}

#[test]
fn a_registration_is_answered() {
    let answer = |delivery: Delivery| match delivery.body {
        Body::Frame(text) => text,
        other => panic!("{:?}", other),
    };
    assert_eq!(answer(registration_reply(Ok(()))), frame("REGOK"));
    assert_eq!(answer(registration_reply(Err(RegConflict))), frame("REGCONFLICT"));
}

#[test]
fn the_service_binds_announces_and_polls() {
    let mut server = server();
    assert!(matches!(server.run(RunEvent::Begin),
        RunAction::BindHeartbeat(addr) if addr == "tcp://hb"));
    assert!(matches!(server.run(RunEvent::Done),
        RunAction::BindFrontend(addr) if addr == "tcp://fe"));
    match server.run(RunEvent::Done) {
        RunAction::Announce(first, second) => {
            assert_eq!(first, "Listening on (tcp://fe)");
            assert_eq!(second, "Heartbeat on (tcp://hb)");
        }
        other => panic!("{:?}", other),
    }
    assert!(matches!(server.run(RunEvent::Done), RunAction::Poll));
    let event = RunEvent::Readable { heartbeat: false, frontend: false };
    assert!(matches!(server.run(event), RunAction::Poll));
    let event = RunEvent::Readable { heartbeat: true, frontend: true };
    assert!(matches!(server.run(event), RunAction::ProcessHeartbeat));
    assert!(matches!(server.run(RunEvent::Done), RunAction::ProcessFrontend));
    assert!(matches!(server.run(RunEvent::Done), RunAction::Poll));
    let event = RunEvent::Readable { heartbeat: true, frontend: false };
    assert!(matches!(server.run(event), RunAction::ProcessHeartbeat));
    assert!(matches!(server.run(RunEvent::Done), RunAction::Poll));
    let event = RunEvent::Readable { heartbeat: false, frontend: true };
    assert!(matches!(server.run(event), RunAction::ProcessFrontend));
    let event = RunEvent::Failed(RouterError::Zmq("down".to_string()));
    assert!(matches!(server.run(event), RunAction::Stop(RouterError::Zmq(e)) if e == "down"));
}

#[test]
fn a_new_configuration_takes_the_place_of_the_old() {
    let mut server = server();
    assert!(server.reconfigure(config("tcp://fe2", "tcp://hb2")).is_ok());
    assert!(matches!(server.run(RunEvent::Begin),
        RunAction::BindHeartbeat(addr) if addr == "tcp://hb2"));
}

#[test]
fn the_work_on_a_message_is_bounded() {
    // Endless hops are cut off at the limit, and nothing is left of them.
    let mut server = server();
    let mut action = server.process_frontend(FrontendEvent::Begin);
    let mut received: u32 = 0;
    while matches!(action, FrontendAction::Recv) {
        action = server.process_frontend(FrontendEvent::Received(frame("hop")));
        received += 1;
    }
    assert_eq!(received, 4);
    assert!(is_done(action));
    let (sent, _) = delivery(feed(&mut server, &["job-1", "me", "", "RP", "answer"]));
    assert_eq!(sent.frames, frames(&["me", ""]));
}

#[test]
fn what_is_sent_back_has_one_empty_address() {
    let mut server = server();
    let (sent, _) = delivery(request(&mut server, message("JobGet", to(JOBS, Some(1)))));
    let empty: Vec<usize> = (0..sent.frames.len()).filter(|i| sent.frames[*i].is_empty()).collect();
    assert_eq!(empty, vec![2]);
}

#[test]
fn a_stopped_router_can_be_run_again() {
    let mut server = server();
    server.run(RunEvent::Begin);
    let refused = RunEvent::Failed(RouterError::Zmq("in use".to_string()));
    assert!(matches!(server.run(refused), RunAction::Stop(RouterError::Zmq(e)) if e == "in use"));
    assert!(matches!(server.run(RunEvent::Begin), RunAction::BindHeartbeat(_)));
    assert!(matches!(server.run(RunEvent::Done), RunAction::BindFrontend(_)));
    assert!(matches!(server.run(RunEvent::Done), RunAction::Announce(_, _)));
    assert!(matches!(server.run(RunEvent::Done), RunAction::Poll));
}
