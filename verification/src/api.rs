//! Calls on the origin service: finding an origin and creating a channel in it.
use vstd::prelude::*;

use crate::net::{ErrCode, NetError, NetErrorView};

verus! {

/// The request for an origin by its name.
#[derive(Debug)]
pub struct OriginGet {
    pub name: String,
}

/// An origin.
#[derive(Debug)]
pub struct Origin {
    pub id: u64,
    pub name: String,
    pub owner_id: u64,
}

/// The request to create a channel in an origin.
#[derive(Debug)]
pub struct OriginChannelCreate {
    pub owner_id: u64,
    pub origin_name: String,
    pub origin_id: u64,
    pub name: String,
}

/// A channel of an origin.
#[derive(Debug)]
pub struct OriginChannel {
    pub id: u64,
    pub origin_id: u64,
    pub owner_id: u64,
    pub name: String,
}

/// Why a call failed.
#[derive(Debug)]
pub enum Error {
    /// There is no origin of this name.
    OriginNotFound(String),
    /// The service refused.
    NetError(NetError),
}

/// What an `OriginChannelCreate` asks for.
pub ghost struct OriginChannelCreateView {
    pub owner_id: u64,
    pub origin_name: Seq<char>,
    pub origin_id: u64,
    pub name: Seq<char>,
}

/// What an `Error` says.
pub ghost enum ErrorView {
    OriginNotFound(Seq<char>),
    NetError(NetErrorView),
}

impl View for OriginChannelCreate {
    type V = OriginChannelCreateView;

    open spec fn view(&self) -> OriginChannelCreateView {
        OriginChannelCreateView {
            owner_id: self.owner_id,
            origin_name: self.origin_name@,
            origin_id: self.origin_id,
            name: self.name@,
        }
    }
}

impl View for Error {
    type V = ErrorView;

    open spec fn view(&self) -> ErrorView {
        match self {
            Error::OriginNotFound(name) => ErrorView::OriginNotFound(name@),
            Error::NetError(e) => ErrorView::NetError(e@),
        }
    }
}

/// What has become of the search for an origin.
#[derive(Debug)]
pub enum OriginEvent {
    /// It begins.
    Begin,
    /// The service answered.
    Reply(Result<Origin, NetError>),
}

/// What the search for an origin needs next.
#[derive(Debug)]
pub enum OriginAction {
    /// Send the request and wait for the answer.
    Route(OriginGet),
    /// Nothing: this is what was found.
    Done(Result<Option<Origin>, Error>),
}

/// What an `OriginAction` says.
pub ghost enum OriginActionView {
    Route(Seq<char>),
    Done(Result<Option<Origin>, ErrorView>),
}

impl View for OriginAction {
    type V = OriginActionView;

    open spec fn view(&self) -> OriginActionView {
        match self {
            OriginAction::Route(request) => OriginActionView::Route(request.name@),
            OriginAction::Done(Ok(found)) => OriginActionView::Done(Ok(*found)),
            OriginAction::Done(Err(e)) => OriginActionView::Done(Err(e@)),
        }
    }
}

/// What has become of the creation of a channel.
#[derive(Debug)]
pub enum ChannelEvent {
    /// It begins.
    Begin,
    /// The service answered the search for the origin.
    OriginReply(Result<Origin, NetError>),
    /// The service answered the creation of the channel.
    ChannelReply(Result<OriginChannel, NetError>),
}

/// What the creation of a channel needs next.
#[derive(Debug)]
pub enum ChannelAction {
    /// Send the request for the origin and wait for the answer.
    RouteOrigin(OriginGet),
    /// Send the request to create the channel and wait for the answer.
    RouteChannel(OriginChannelCreate),
    /// Nothing: this is the outcome.
    Done(Result<OriginChannel, Error>),
}

/// What a `ChannelAction` says.
pub ghost enum ChannelActionView {
    RouteOrigin(Seq<char>),
    RouteChannel(OriginChannelCreateView),
    Done(Result<OriginChannel, ErrorView>),
}

impl View for ChannelAction {
    type V = ChannelActionView;

    open spec fn view(&self) -> ChannelActionView {
        match self {
            ChannelAction::RouteOrigin(request) => ChannelActionView::RouteOrigin(request.name@),
            ChannelAction::RouteChannel(request) => ChannelActionView::RouteChannel(request@),
            ChannelAction::Done(Ok(channel)) => ChannelActionView::Done(Ok(*channel)),
            ChannelAction::Done(Err(e)) => ChannelActionView::Done(Err(e@)),
        }
    }
}

/// What a reply to the search for an origin means: that there is none is no error.
pub open spec fn found(reply: Result<Origin, NetError>) -> Result<Option<Origin>, ErrorView> {
    match reply {
        Ok(origin) => Ok(Some(origin)),
        Err(e) => if e.code == ErrCode::EntityNotFound {
            Ok(None)
        } else {
            Err(ErrorView::NetError(e@))
        },
    }
}

/// The search for an origin.
pub open spec fn origin_step(origin: Seq<char>, event: OriginEvent) -> OriginActionView {
    match event {
        OriginEvent::Begin => OriginActionView::Route(origin),
        OriginEvent::Reply(reply) => OriginActionView::Done(found(reply)),
    }
}

/// The creation of a channel.
pub open spec fn channel_step(
    origin: Seq<char>,
    channel: Seq<char>,
    session_id: u64,
    event: ChannelEvent,
) -> ChannelActionView {
    match event {
        ChannelEvent::Begin => ChannelActionView::RouteOrigin(origin),
        ChannelEvent::OriginReply(reply) => match found(reply) {
            Ok(Some(o)) => ChannelActionView::RouteChannel(
                OriginChannelCreateView {
                    owner_id: session_id,
                    origin_name: origin,
                    origin_id: o.id,
                    name: channel,
                },
            ),
            Ok(None) => ChannelActionView::Done(Err(ErrorView::OriginNotFound(origin))),
            Err(e) => ChannelActionView::Done(Err(e)),
        },
        ChannelEvent::ChannelReply(Ok(c)) => ChannelActionView::Done(Ok(c)),
        ChannelEvent::ChannelReply(Err(e)) => ChannelActionView::Done(
            Err(ErrorView::NetError(e@)),
        ),
    }
}

/// What a reply to the search for an origin means.
fn origin_found(reply: Result<Origin, NetError>) -> (result: Result<Option<Origin>, Error>)
    ensures
        match result {
            Ok(origin) => found(reply) == Ok::<Option<Origin>, ErrorView>(origin),
            Err(e) => found(reply) == Err::<Option<Origin>, ErrorView>(e@),
        },
        reply matches Ok(origin) ==> result == Ok::<Option<Origin>, Error>(Some(origin)),
        reply matches Err(e) ==> match result {
            Ok(none) => none is None && e.code == ErrCode::EntityNotFound,
            Err(Error::NetError(refusal)) => refusal == e && e.code != ErrCode::EntityNotFound,
            Err(_) => false,
        },
{
    match reply {
        Ok(origin) => Ok(Some(origin)),
        Err(e) => match e.code {
            ErrCode::EntityNotFound => Ok(None),
            _ => Err(Error::NetError(e)),
        },
    }
}

/// Finds an origin by its name. An origin that does not exist is `None`.
pub fn get_origin(origin: &str, event: OriginEvent) -> (action: OriginAction)
    ensures
        action@ == origin_step(origin@, event),
        match event {
            OriginEvent::Begin => action matches OriginAction::Route(request) && request.name@
                == origin@,
            OriginEvent::Reply(Ok(found)) => action == OriginAction::Done(Ok(Some(found))),
            OriginEvent::Reply(Err(e)) => if e.code == ErrCode::EntityNotFound {
                action == OriginAction::Done(Ok(None))
            } else {
                action == OriginAction::Done(Err(Error::NetError(e)))
            },
        },
{
    match event {
        OriginEvent::Begin => OriginAction::Route(OriginGet { name: origin.to_owned() }),
        OriginEvent::Reply(reply) => OriginAction::Done(origin_found(reply)),
    }
}

/// Creates a channel in an origin on behalf of a session: first the origin is found, then the
/// channel is created in it.
pub fn create_channel(origin: &str, channel: &str, session_id: u64, event: ChannelEvent) -> (action:
    ChannelAction)
    ensures
        action@ == channel_step(origin@, channel@, session_id, event),
        match event {
            ChannelEvent::Begin => action matches ChannelAction::RouteOrigin(request)
                && request.name@ == origin@,
            ChannelEvent::OriginReply(Ok(found)) => action matches ChannelAction::RouteChannel(
                request,
            ) && request.owner_id == session_id && request.origin_name@ == origin@
                && request.origin_id == found.id && request.name@ == channel@,
            ChannelEvent::OriginReply(Err(e)) => if e.code == ErrCode::EntityNotFound {
                action matches ChannelAction::Done(Err(Error::OriginNotFound(name))) && name@
                    == origin@
            } else {
                action == ChannelAction::Done(Err(Error::NetError(e)))
            },
            ChannelEvent::ChannelReply(Ok(created)) => action == ChannelAction::Done(Ok(created)),
            ChannelEvent::ChannelReply(Err(e)) => action == ChannelAction::Done(
                Err(Error::NetError(e)),
            ),
        },
{
    match event {
        ChannelEvent::Begin => ChannelAction::RouteOrigin(OriginGet { name: origin.to_owned() }),
        ChannelEvent::OriginReply(reply) => match origin_found(reply) {
            Ok(Some(o)) => ChannelAction::RouteChannel(
                OriginChannelCreate {
                    owner_id: session_id,
                    origin_name: origin.to_owned(),
                    origin_id: o.id,
                    name: channel.to_owned(),
                },
            ),
            Ok(None) => ChannelAction::Done(Err(Error::OriginNotFound(origin.to_owned()))),
            Err(e) => ChannelAction::Done(Err(e)),
        },
        ChannelEvent::ChannelReply(Ok(c)) => ChannelAction::Done(Ok(c)),
        ChannelEvent::ChannelReply(Err(e)) => ChannelAction::Done(Err(Error::NetError(e))),
    }
}

/// The outcome of a whole creation, given what the service answers to the two requests.
pub open spec fn channel_outcome(
    origin: Seq<char>,
    channel: Seq<char>,
    session_id: u64,
    origin_reply: Result<Origin, NetError>,
    channel_reply: Result<OriginChannel, NetError>,
) -> ChannelActionView {
    let first = channel_step(origin, channel, session_id, ChannelEvent::OriginReply(origin_reply));
    if first is Done {
        first
    } else {
        channel_step(origin, channel, session_id, ChannelEvent::ChannelReply(channel_reply))
    }
}

/// The search for the origin of a channel is the search for an origin.
pub proof fn law_channel_searches_origin(
    origin: Seq<char>,
    channel: Seq<char>,
    session_id: u64,
    reply: Result<Origin, NetError>,
)
    ensures
        origin_step(origin, OriginEvent::Begin) == OriginActionView::Route(origin),
        channel_step(origin, channel, session_id, ChannelEvent::Begin)
            == ChannelActionView::RouteOrigin(origin),
        match origin_step(origin, OriginEvent::Reply(reply)) {
            OriginActionView::Done(Err(e)) => channel_step(
                origin,
                channel,
                session_id,
                ChannelEvent::OriginReply(reply),
            ) == ChannelActionView::Done(Err(e)),
            OriginActionView::Done(Ok(None)) => channel_step(
                origin,
                channel,
                session_id,
                ChannelEvent::OriginReply(reply),
            ) == ChannelActionView::Done(Err(ErrorView::OriginNotFound(origin))),
            _ => channel_step(
                origin,
                channel,
                session_id,
                ChannelEvent::OriginReply(reply),
            ) is RouteChannel,
        },
{
}

/// A channel is asked for exactly where the origin was found, and then in that origin, under
/// the names given and for the session given.
pub proof fn law_channel_needs_origin(
    origin: Seq<char>,
    channel: Seq<char>,
    session_id: u64,
    reply: Result<Origin, NetError>,
    request: OriginChannelCreateView,
)
    ensures
        channel_step(origin, channel, session_id, ChannelEvent::OriginReply(reply))
            == ChannelActionView::RouteChannel(request) <==> {
            &&& reply is Ok
            &&& request.origin_id == reply->Ok_0.id
            &&& request.origin_name == origin
            &&& request.name == channel
            &&& request.owner_id == session_id
        },
{
}

/// A whole creation ends after two answers: with the channel where both were good, and else with
/// the first refusal, which for an unknown origin names the origin.
pub proof fn law_channel_outcome(
    origin: Seq<char>,
    channel: Seq<char>,
    session_id: u64,
    origin_reply: Result<Origin, NetError>,
    channel_reply: Result<OriginChannel, NetError>,
)
    ensures
        channel_outcome(origin, channel, session_id, origin_reply, channel_reply)
            == ChannelActionView::Done(
            match (origin_reply, channel_reply) {
                (Err(e), _) => if e.code == ErrCode::EntityNotFound {
                    Err(ErrorView::OriginNotFound(origin))
                } else {
                    Err(ErrorView::NetError(e@))
                },
                (Ok(_), Err(e)) => Err(ErrorView::NetError(e@)),
                (Ok(_), Ok(c)) => Ok(c),
            },
        ),
{
}

/// The service is asked for the origin of the name given. The origin that it answers with is
/// handed out as it is; that there is none is no error; any other refusal is handed out as it is.
pub proof fn law_origin_is_handed_out(origin: Seq<char>, reply: Result<Origin, NetError>)
    ensures
        origin_step(origin, OriginEvent::Begin) == OriginActionView::Route(origin),
        match reply {
            Ok(found) => origin_step(origin, OriginEvent::Reply(reply)) == OriginActionView::Done(
                Ok(Some(Origin { id: found.id, name: found.name, owner_id: found.owner_id })),
            ),
            Err(e) => origin_step(origin, OriginEvent::Reply(reply)) == OriginActionView::Done(
                if e.code == ErrCode::EntityNotFound {
                    Ok(None)
                } else {
                    Err(ErrorView::NetError(NetErrorView { code: e.code, msg: e.msg@ }))
                },
            ),
        },
{
}

/// What the search for an origin gives depends on the answer alone, and different answers that
/// find an origin give different origins.
pub proof fn law_origin_by_answer(
    a: Seq<char>,
    b: Seq<char>,
    one: Result<Origin, NetError>,
    other: Result<Origin, NetError>,
)
    ensures
        origin_step(a, OriginEvent::Reply(one)) == origin_step(b, OriginEvent::Reply(one)),
        one is Ok && other is Ok ==> (origin_step(a, OriginEvent::Reply(one)) == origin_step(
            b,
            OriginEvent::Reply(other),
        ) <==> one->Ok_0 == other->Ok_0),
{
}

/// The answer to the creation of a channel is handed out as it is.
pub proof fn law_channel_is_handed_out(
    origin: Seq<char>,
    channel: Seq<char>,
    session_id: u64,
    reply: Result<OriginChannel, NetError>,
)
    ensures
        channel_step(origin, channel, session_id, ChannelEvent::ChannelReply(reply))
            == ChannelActionView::Done(
            match reply {
                Ok(c) => Ok(
                    OriginChannel {
                        id: c.id,
                        origin_id: c.origin_id,
                        owner_id: c.owner_id,
                        name: c.name,
                    },
                ),
                Err(e) => Err(ErrorView::NetError(NetErrorView { code: e.code, msg: e.msg@ })),
            },
        ),
{
}

/// What is asked of the service, and what the calls end with, is seen as it is.
pub proof fn law_calls_are_seen(search: OriginAction, creation: ChannelAction, e: Error)
    ensures
        match search {
            OriginAction::Route(request) => search@ == OriginActionView::Route(request.name@),
            OriginAction::Done(Ok(found)) => search@ == OriginActionView::Done(Ok(found)),
            OriginAction::Done(Err(error)) => search@ == OriginActionView::Done(Err(error@)),
        },
        match creation {
            ChannelAction::RouteOrigin(request) => creation@ == ChannelActionView::RouteOrigin(
                request.name@,
            ),
            ChannelAction::RouteChannel(request) => creation@ matches
                ChannelActionView::RouteChannel(seen) && seen.owner_id == request.owner_id
                && seen.origin_name == request.origin_name@ && seen.origin_id == request.origin_id
                && seen.name == request.name@,
            ChannelAction::Done(Ok(channel)) => creation@ == ChannelActionView::Done(Ok(channel)),
            ChannelAction::Done(Err(error)) => creation@ == ChannelActionView::Done(Err(error@)),
        },
        match e {
            Error::OriginNotFound(name) => e@ == ErrorView::OriginNotFound(name@),
            Error::NetError(refusal) => e@ matches ErrorView::NetError(seen) && seen.code
                == refusal.code && seen.msg == refusal.msg@,
        },
{
}

} // verus!
