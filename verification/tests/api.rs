use habitat_builder::api::{
    create_channel, get_origin, ChannelAction, ChannelEvent, Error, Origin, OriginAction,
    OriginChannel, OriginEvent,
};
use habitat_builder::net::{ErrCode, NetError};

fn refusal(code: ErrCode) -> NetError {
    NetError { code, msg: "no".to_string() }
}

fn core_origin() -> Origin {
    Origin { id: 42, name: "core".to_string(), owner_id: 1 }
}

#[test]
fn an_origin_is_asked_for_by_name() {
    match get_origin("core", OriginEvent::Begin) {
        OriginAction::Route(request) => assert_eq!(request.name, "core"),
        other => panic!("{:?}", other),
    }
}

#[test]
fn an_origin_that_exists_is_found() {
    match get_origin("core", OriginEvent::Reply(Ok(core_origin()))) {
        OriginAction::Done(Ok(Some(origin))) => assert_eq!(origin.id, 42),
        other => panic!("{:?}", other),
    }
}

#[test]
fn an_origin_that_does_not_exist_is_none() {
    match get_origin("core", OriginEvent::Reply(Err(refusal(ErrCode::EntityNotFound)))) {
        OriginAction::Done(Ok(None)) => {}
        other => panic!("{:?}", other),
    }
}

#[test]
fn another_refusal_of_an_origin_is_an_error() {
    for code in [ErrCode::NoShard, ErrCode::Other(3)] {
        match get_origin("core", OriginEvent::Reply(Err(refusal(code)))) {
            OriginAction::Done(Err(Error::NetError(e))) => assert_eq!(e.code, code),
            other => panic!("{:?}", other),
        }
    }
}

#[test]
fn a_channel_is_created_in_its_origin() {
    match create_channel("core", "stable", 9, ChannelEvent::Begin) {
        ChannelAction::RouteOrigin(request) => assert_eq!(request.name, "core"),
        other => panic!("{:?}", other),
    }
    match create_channel("core", "stable", 9, ChannelEvent::OriginReply(Ok(core_origin()))) {
        ChannelAction::RouteChannel(request) => {
            assert_eq!(request.owner_id, 9);
            assert_eq!(request.origin_name, "core");
            assert_eq!(request.origin_id, 42);
            assert_eq!(request.name, "stable");
        }
        other => panic!("{:?}", other),
    }
    let channel = OriginChannel { id: 7, origin_id: 42, owner_id: 9, name: "stable".to_string() };
    match create_channel("core", "stable", 9, ChannelEvent::ChannelReply(Ok(channel))) {
        ChannelAction::Done(Ok(channel)) => assert_eq!(channel.id, 7),
        other => panic!("{:?}", other),
    }
}

#[test]
fn no_channel_is_created_in_an_unknown_origin() {
    let reply = ChannelEvent::OriginReply(Err(refusal(ErrCode::EntityNotFound)));
    match create_channel("core", "stable", 9, reply) {
        ChannelAction::Done(Err(Error::OriginNotFound(name))) => assert_eq!(name, "core"),
        other => panic!("{:?}", other),
    }
}

#[test]
fn a_refusal_ends_the_creation_of_a_channel() {
    let reply = ChannelEvent::OriginReply(Err(refusal(ErrCode::Other(1))));
    match create_channel("core", "stable", 9, reply) {
        ChannelAction::Done(Err(Error::NetError(e))) => assert_eq!(e.code, ErrCode::Other(1)),
        other => panic!("{:?}", other),
    }
    // That the channel's own creation says "not found" is not the origin's absence.
    let reply = ChannelEvent::ChannelReply(Err(refusal(ErrCode::EntityNotFound)));
    match create_channel("core", "stable", 9, reply) {
        ChannelAction::Done(Err(Error::NetError(e))) => assert_eq!(e.code, ErrCode::EntityNotFound),
        other => panic!("{:?}", other),
    }
}
