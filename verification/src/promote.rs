//! Promotion of a job group to a channel.
use vstd::prelude::*;
use vstd::string::*;

use crate::number::{parse_u64, parsed, ParseIntError};

verus! {

/// What is to be promoted, where and by whom.
#[derive(Debug)]
pub struct PromoteRequest {
    pub depot_url: String,
    /// The job group's number, as it was typed.
    pub group_id: String,
    pub channel: String,
    pub token: String,
    /// The name and version under which the client makes itself known.
    pub product: String,
    pub version: String,
}

/// What a `PromoteRequest` says.
pub ghost struct PromoteRequestView {
    pub depot_url: Seq<char>,
    pub group_id: Seq<char>,
    pub channel: Seq<char>,
    pub token: Seq<char>,
    pub product: Seq<char>,
    pub version: Seq<char>,
}

impl View for PromoteRequest {
    type V = PromoteRequestView;

    open spec fn view(&self) -> PromoteRequestView {
        PromoteRequestView {
            depot_url: self.depot_url@,
            group_id: self.group_id@,
            channel: self.channel@,
            token: self.token@,
            product: self.product@,
            version: self.version@,
        }
    }
}

/// Why a promotion failed.
#[derive(Debug)]
pub enum PromoteError {
    /// The depot's client refused. Contains its own words.
    APIClient(String),
    /// The group id is not a number.
    ParseIntError(ParseIntError),
    /// The user could not be told. Contains the terminal's own words.
    UI(String),
}

/// What the user is told of the promotion.
#[derive(Debug, Clone, Copy, PartialEq, Eq, Structural)]
pub enum Status {
    Promoting,
    Promoted,
}

/// How far a promotion has come.
#[derive(Debug, Clone, Copy, PartialEq, Eq, Structural)]
pub enum PromoteState {
    Idle,
    /// The client is being made.
    Connecting,
    /// The user is being told that the group id is no number.
    Refusing(ParseIntError),
    /// The user is being told of the promotion of this group.
    Announcing(u64),
    /// The depot is promoting.
    Promoting,
    /// The user is being told that it is done.
    Confirming,
    Finished,
}

/// Something that happened to a promotion.
#[derive(Debug)]
pub enum PromoteEvent {
    /// It begins.
    Begin,
    /// What was to be done is done.
    Done,
    /// What was to be done failed. Contains the words of who refused.
    Failed(String),
}

/// What a promotion needs next.
#[derive(Debug)]
pub enum PromoteAction {
    /// Make a client of the depot at `depot_url`, with a product's name and version.
    Connect { depot_url: String, product: String, version: String },
    /// Tell the user of a fatal error.
    Fatal(String),
    /// Tell the user of the promotion.
    Status(Status, String),
    /// Have the depot promote the group.
    Promote { group: u64, channel: String, token: String },
    /// Nothing: this is the outcome.
    Finish(Result<(), PromoteError>),
}

/// What a `PromoteError` says.
pub ghost enum PromoteErrorView {
    APIClient(Seq<char>),
    ParseIntError(ParseIntError),
    UI(Seq<char>),
}

/// What a `PromoteEvent` says.
pub ghost enum PromoteEventView {
    Begin,
    Done,
    Failed(Seq<char>),
}

/// What a `PromoteAction` says.
pub ghost enum PromoteActionView {
    Connect { depot_url: Seq<char>, product: Seq<char>, version: Seq<char> },
    Fatal(Seq<char>),
    Status(Status, Seq<char>),
    Promote { group: u64, channel: Seq<char>, token: Seq<char> },
    Finish(Result<(), PromoteErrorView>),
}

impl View for PromoteError {
    type V = PromoteErrorView;

    open spec fn view(&self) -> PromoteErrorView {
        match self {
            PromoteError::APIClient(e) => PromoteErrorView::APIClient(e@),
            PromoteError::ParseIntError(e) => PromoteErrorView::ParseIntError(*e),
            PromoteError::UI(e) => PromoteErrorView::UI(e@),
        }
    }
}

impl View for PromoteEvent {
    type V = PromoteEventView;

    open spec fn view(&self) -> PromoteEventView {
        match self {
            PromoteEvent::Begin => PromoteEventView::Begin,
            PromoteEvent::Done => PromoteEventView::Done,
            PromoteEvent::Failed(e) => PromoteEventView::Failed(e@),
        }
    }
}

impl View for PromoteAction {
    type V = PromoteActionView;

    open spec fn view(&self) -> PromoteActionView {
        match self {
            PromoteAction::Connect { depot_url, product, version } => PromoteActionView::Connect {
                depot_url: depot_url@,
                product: product@,
                version: version@,
            },
            PromoteAction::Fatal(text) => PromoteActionView::Fatal(text@),
            PromoteAction::Status(status, text) => PromoteActionView::Status(*status, text@),
            PromoteAction::Promote { group, channel, token } => PromoteActionView::Promote {
                group: *group,
                channel: channel@,
                token: token@,
            },
            PromoteAction::Finish(Ok(())) => PromoteActionView::Finish(Ok(())),
            PromoteAction::Finish(Err(e)) => PromoteActionView::Finish(Err(e@)),
        }
    }
}

/// What is wrong with a number, in words.
pub open spec fn parse_error_text(e: ParseIntError) -> Seq<char> {
    match e {
        ParseIntError::Empty => "cannot parse integer from empty string"@,
        ParseIntError::InvalidDigit => "invalid digit found in string"@,
        ParseIntError::PosOverflow => "number too large to fit in target type"@,
    }
}

impl PromoteRequestView {
    /// What the user is told of.
    pub open spec fn subject(self) -> Seq<char> {
        "job group "@ + self.group_id + " to channel "@ + self.channel
    }
}

/// Whether `event` is one that the promotion waits for.
pub open spec fn expects(state: PromoteState, event: PromoteEventView) -> bool {
    match event {
        PromoteEventView::Begin => state == PromoteState::Idle,
        _ => state != PromoteState::Idle && state != PromoteState::Finished,
    }
}

/// The end of a promotion.
pub open spec fn finished(result: Result<(), PromoteErrorView>) -> (
    PromoteState,
    PromoteActionView,
) {
    (PromoteState::Finished, PromoteActionView::Finish(result))
}

/// What an event brings about: the client is made, the group id is read, the user is told, the
/// depot promotes, and the user is told again. The first failure ends it.
pub open spec fn promote_step(
    request: PromoteRequestView,
    state: PromoteState,
    event: PromoteEventView,
) -> (PromoteState, PromoteActionView) {
    match event {
        PromoteEventView::Begin => (
            PromoteState::Connecting,
            PromoteActionView::Connect {
                depot_url: request.depot_url,
                product: request.product,
                version: request.version,
            },
        ),
        PromoteEventView::Failed(e) => match state {
            PromoteState::Connecting | PromoteState::Promoting => finished(
                Err(PromoteErrorView::APIClient(e)),
            ),
            _ => finished(Err(PromoteErrorView::UI(e))),
        },
        PromoteEventView::Done => match state {
            PromoteState::Connecting => match parsed(request.group_id) {
                Ok(group) => (
                    PromoteState::Announcing(group),
                    PromoteActionView::Status(Status::Promoting, request.subject()),
                ),
                Err(e) => (
                    PromoteState::Refusing(e),
                    PromoteActionView::Fatal("Failed to parse group id: "@ + parse_error_text(e)),
                ),
            },
            PromoteState::Refusing(e) => finished(Err(PromoteErrorView::ParseIntError(e))),
            PromoteState::Announcing(group) => (
                PromoteState::Promoting,
                PromoteActionView::Promote {
                    group,
                    channel: request.channel,
                    token: request.token,
                },
            ),
            PromoteState::Promoting => (
                PromoteState::Confirming,
                PromoteActionView::Status(Status::Promoted, request.subject()),
            ),
            _ => finished(Ok(())),
        },
    }
}

/// What is wrong with a number, in words.
fn describe(e: ParseIntError) -> (text: &'static str)
    ensures
        text@ == parse_error_text(e),
{
    match e {
        ParseIntError::Empty => "cannot parse integer from empty string",
        ParseIntError::InvalidDigit => "invalid digit found in string",
        ParseIntError::PosOverflow => "number too large to fit in target type",
    }
}

/// What the user is told of.
fn subject(request: &PromoteRequest) -> (text: String)
    ensures
        text@ == request@.subject(),
{
    let mut text = "job group ".to_owned();
    text.append(request.group_id.as_str());
    text.append(" to channel ");
    text.append(request.channel.as_str());
    text
}

/// Takes a promotion one step further and says what it needs next.
pub fn start(request: &PromoteRequest, state: PromoteState, event: PromoteEvent) -> (next: (
    PromoteState,
    PromoteAction,
))
    requires
        expects(state, event@),
    ensures
        (next.0, next.1@) == promote_step(request@, state, event@),
        event is Begin ==> (next.1 matches PromoteAction::Connect { depot_url, product, version }
            && depot_url@ == request.depot_url@ && product@ == request.product@ && version@
            == request.version@),
        next.1 matches PromoteAction::Promote { group, channel, token } ==> state
            == PromoteState::Announcing(group) && channel@ == request.channel@ && token@
            == request.token@,
{
    match event {
        PromoteEvent::Begin => (
            PromoteState::Connecting,
            PromoteAction::Connect {
                depot_url: request.depot_url.clone(),
                product: request.product.clone(),
                version: request.version.clone(),
            },
        ),
        PromoteEvent::Failed(e) => {
            let error: PromoteError = match state {
                PromoteState::Connecting | PromoteState::Promoting => PromoteError::APIClient(e),
                _ => PromoteError::UI(e),
            };
            (PromoteState::Finished, PromoteAction::Finish(Err(error)))
        },
        PromoteEvent::Done => match state {
            PromoteState::Connecting => match parse_u64(request.group_id.as_str()) {
                Ok(group) => (
                    PromoteState::Announcing(group),
                    PromoteAction::Status(Status::Promoting, subject(request)),
                ),
                Err(e) => {
                    let mut text = "Failed to parse group id: ".to_owned();
                    text.append(describe(e));
                    (PromoteState::Refusing(e), PromoteAction::Fatal(text))
                },
            },
            PromoteState::Refusing(e) => (
                PromoteState::Finished,
                PromoteAction::Finish(Err(PromoteError::ParseIntError(e))),
            ),
            PromoteState::Announcing(group) => (
                PromoteState::Promoting,
                PromoteAction::Promote {
                    group,
                    channel: request.channel.clone(),
                    token: request.token.clone(),
                },
            ),
            PromoteState::Promoting => (
                PromoteState::Confirming,
                PromoteAction::Status(Status::Promoted, subject(request)),
            ),
            _ => (PromoteState::Finished, PromoteAction::Finish(Ok(()))),
        },
    }
}

/// How many steps a promotion needs at most from a state on.
pub open spec fn steps_left(state: PromoteState) -> nat {
    match state {
        PromoteState::Idle => 5,
        PromoteState::Connecting => 4,
        PromoteState::Announcing(_) => 3,
        PromoteState::Promoting => 2,
        PromoteState::Refusing(_) | PromoteState::Confirming => 1,
        PromoteState::Finished => 0,
    }
}

/// A promotion comes to an end: each event leaves fewer steps, and none are left exactly when
/// the outcome is given.
pub proof fn law_promotion_ends(
    request: PromoteRequestView,
    state: PromoteState,
    event: PromoteEventView,
)
    requires
        expects(state, event),
    ensures
        ({
            let (next, action) = promote_step(request, state, event);
            &&& steps_left(next) < steps_left(state)
            &&& steps_left(next) == 0 <==> action is Finish
        }),
{
}

/// The state of a promotion after events, each of which it waited for, from its beginning.
pub open spec fn reached(request: PromoteRequestView, events: Seq<PromoteEventView>) -> PromoteState
    decreases events.len(),
{
    if events.len() == 0 {
        PromoteState::Idle
    } else {
        promote_step(request, reached(request, events.drop_last()), events.last()).0
    }
}

/// Whether a promotion waits for each of these events in turn.
pub open spec fn possible(request: PromoteRequestView, events: Seq<PromoteEventView>) -> bool
    decreases events.len(),
{
    events.len() == 0 || (possible(request, events.drop_last()) && expects(
        reached(request, events.drop_last()),
        events.last(),
    ))
}

/// A group that a promotion speaks of is the one that its group id names.
proof fn lemma_group_is_named(request: PromoteRequestView, events: Seq<PromoteEventView>)
    requires
        possible(request, events),
    ensures
        match reached(request, events) {
            PromoteState::Announcing(group) => parsed(request.group_id) == Ok::<u64, ParseIntError>(
                group,
            ),
            PromoteState::Refusing(e) => parsed(request.group_id) == Err::<u64, ParseIntError>(e),
            PromoteState::Promoting | PromoteState::Confirming => parsed(request.group_id) is Ok,
            _ => true,
        },
    decreases events.len(),
{
    if events.len() > 0 {
        lemma_group_is_named(request, events.drop_last());
    }
}

/// The depot is asked to promote the group that the group id names and no other, and nothing
/// where it names none. A promotion that succeeds had a group id that names a group, and one
/// that fails for its group id fails with what is wrong with it.
pub proof fn law_promotes_what_was_named(
    request: PromoteRequestView,
    events: Seq<PromoteEventView>,
    event: PromoteEventView,
)
    requires
        possible(request, events.push(event)),
    ensures
        ({
            let action = promote_step(request, reached(request, events), event).1;
            &&& action matches PromoteActionView::Promote { group, channel, token } ==> parsed(
                request.group_id,
            ) == Ok::<u64, ParseIntError>(group) && channel == request.channel && token
                == request.token
            &&& action matches PromoteActionView::Finish(
                Err(PromoteErrorView::ParseIntError(e)),
            ) ==> parsed(request.group_id) == Err::<u64, ParseIntError>(e)
            &&& action == PromoteActionView::Finish(Ok(())) ==> parsed(request.group_id) is Ok
        }),
{
    assert(events.push(event).drop_last() =~= events);
    lemma_group_is_named(request, events);
}

/// A group id that is no number is refused: the user is told what is wrong with it, and the
/// promotion fails with that.
pub proof fn law_bad_group_id_is_refused(request: PromoteRequestView, e: ParseIntError)
    requires
        parsed(request.group_id) == Err::<u64, ParseIntError>(e),
    ensures
        ({
            let (s1, a1) = promote_step(request, PromoteState::Idle, PromoteEventView::Begin);
            let (s2, a2) = promote_step(request, s1, PromoteEventView::Done);
            let (s3, a3) = promote_step(request, s2, PromoteEventView::Done);
            &&& a1 is Connect
            &&& a2 == PromoteActionView::Fatal(
                "Failed to parse group id: "@ + parse_error_text(e),
            )
            &&& a3 == PromoteActionView::Finish(Err(PromoteErrorView::ParseIntError(e)))
            &&& s3 == PromoteState::Finished
        }),
{
}

/// A promotion in which nothing fails goes through all its steps in order and succeeds.
pub proof fn law_promotion_in_full(request: PromoteRequestView, group: u64)
    requires
        parsed(request.group_id) == Ok::<u64, ParseIntError>(group),
    ensures
        ({
            let (s1, a1) = promote_step(request, PromoteState::Idle, PromoteEventView::Begin);
            let (s2, a2) = promote_step(request, s1, PromoteEventView::Done);
            let (s3, a3) = promote_step(request, s2, PromoteEventView::Done);
            let (s4, a4) = promote_step(request, s3, PromoteEventView::Done);
            let (s5, a5) = promote_step(request, s4, PromoteEventView::Done);
            &&& a1 is Connect
            &&& a2 == PromoteActionView::Status(Status::Promoting, request.subject())
            &&& a3 == PromoteActionView::Promote {
                group,
                channel: request.channel,
                token: request.token,
            }
            &&& a4 == PromoteActionView::Status(Status::Promoted, request.subject())
            &&& a5 == PromoteActionView::Finish(Ok(()))
            &&& s5 == PromoteState::Finished
        }),
{
}

/// The user is told that a group is promoted only after the depot promoted it.
pub proof fn law_promoted_only_after_depot(
    request: PromoteRequestView,
    state: PromoteState,
    event: PromoteEventView,
    text: Seq<char>,
)
    requires
        expects(state, event),
        promote_step(request, state, event).1 == PromoteActionView::Status(Status::Promoted, text),
    ensures
        state == PromoteState::Promoting,
        event == PromoteEventView::Done,
{
}

/// A promotion begins by making a client of the depot that was named, under the product and
/// version given, whatever the rest of the request says.
pub proof fn law_client_is_of_the_depot(request: PromoteRequestView)
    ensures
        ({
            let (state, action) = promote_step(
                request,
                PromoteState::Idle,
                PromoteEventView::Begin,
            );
            &&& state == PromoteState::Connecting
            &&& action matches PromoteActionView::Connect { depot_url, product, version }
                && depot_url == request.depot_url && product == request.product && version
                == request.version
        }),
{
}

/// Once there is a client, a group id that is a number is announced: the user is told that the
/// job group, as it was typed, is being promoted to the channel. One that is none is refused: the
/// user is told so, with what is wrong with it.
pub proof fn law_group_id_is_read(request: PromoteRequestView)
    ensures
        ({
            let (state, action) = promote_step(
                request,
                PromoteState::Connecting,
                PromoteEventView::Done,
            );
            match parsed(request.group_id) {
                Ok(group) => {
                    &&& state == PromoteState::Announcing(group)
                    &&& action == PromoteActionView::Status(
                        Status::Promoting,
                        "job group "@ + request.group_id + " to channel "@ + request.channel,
                    )
                },
                Err(e) => {
                    &&& state == PromoteState::Refusing(e)
                    &&& action == PromoteActionView::Fatal(
                        "Failed to parse group id: "@ + match e {
                            ParseIntError::Empty => "cannot parse integer from empty string"@,
                            ParseIntError::InvalidDigit => "invalid digit found in string"@,
                            ParseIntError::PosOverflow => "number too large to fit in target type"@,
                        },
                    )
                },
            }
        }),
{
}

/// A group that was announced is what the depot is asked to promote, to the channel and with the
/// token given; once it has, the user is told so in the same words; and then the promotion has
/// succeeded. One that was refused has failed with what is wrong with its group id.
pub proof fn law_group_is_promoted(request: PromoteRequestView, group: u64, e: ParseIntError)
    ensures
        promote_step(request, PromoteState::Announcing(group), PromoteEventView::Done) == (
            PromoteState::Promoting,
            PromoteActionView::Promote { group, channel: request.channel, token: request.token },
        ),
        promote_step(request, PromoteState::Promoting, PromoteEventView::Done) == (
            PromoteState::Confirming,
            PromoteActionView::Status(
                Status::Promoted,
                "job group "@ + request.group_id + " to channel "@ + request.channel,
            ),
        ),
        promote_step(request, PromoteState::Confirming, PromoteEventView::Done) == (
            PromoteState::Finished,
            PromoteActionView::Finish(Ok(())),
        ),
        promote_step(request, PromoteState::Refusing(e), PromoteEventView::Done) == (
            PromoteState::Finished,
            PromoteActionView::Finish(Err(PromoteErrorView::ParseIntError(e))),
        ),
{
}

/// The first failure ends a promotion with the words of who refused: the depot's client, where a
/// client is made or the depot promotes, and else the terminal.
pub proof fn law_promotion_fails(request: PromoteRequestView, state: PromoteState, e: Seq<char>)
    requires
        expects(state, PromoteEventView::Failed(e)),
    ensures
        ({
            let (next, action) = promote_step(request, state, PromoteEventView::Failed(e));
            &&& next == PromoteState::Finished
            &&& state == PromoteState::Connecting || state == PromoteState::Promoting ==> action
                == PromoteActionView::Finish(Err(PromoteErrorView::APIClient(e)))
            &&& state != PromoteState::Connecting && state != PromoteState::Promoting ==> action
                == PromoteActionView::Finish(Err(PromoteErrorView::UI(e)))
        }),
{
}

/// A promotion can begin, and from then on can be told that what it asked for is done or failed,
/// until it has given its outcome.
pub proof fn law_promotion_waits_for_answers(
    request: PromoteRequestView,
    state: PromoteState,
    event: PromoteEventView,
    e: Seq<char>,
)
    requires
        expects(state, event),
    ensures
        expects(PromoteState::Idle, PromoteEventView::Begin),
        ({
            let (next, action) = promote_step(request, state, event);
            &&& expects(next, PromoteEventView::Done) <==> !(action is Finish)
            &&& expects(next, PromoteEventView::Failed(e)) <==> !(action is Finish)
            &&& !expects(next, PromoteEventView::Begin)
        }),
{
}

/// What a promotion is asked for, told and asks for is seen as it is.
pub proof fn law_promotion_is_seen(
    request: PromoteRequest,
    event: PromoteEvent,
    action: PromoteAction,
    e: PromoteError,
)
    ensures
        request@.depot_url == request.depot_url@,
        request@.group_id == request.group_id@,
        request@.channel == request.channel@,
        request@.token == request.token@,
        request@.product == request.product@,
        request@.version == request.version@,
        match event {
            PromoteEvent::Begin => event@ == PromoteEventView::Begin,
            PromoteEvent::Done => event@ == PromoteEventView::Done,
            PromoteEvent::Failed(words) => event@ == PromoteEventView::Failed(words@),
        },
        match action {
            PromoteAction::Connect { depot_url, product, version } => action@ matches
                PromoteActionView::Connect { depot_url: u, product: p, version: v } && u
                == depot_url@ && p == product@ && v == version@,
            PromoteAction::Fatal(text) => action@ == PromoteActionView::Fatal(text@),
            PromoteAction::Status(status, text) => action@ == PromoteActionView::Status(
                status,
                text@,
            ),
            PromoteAction::Promote { group, channel, token } => action@ matches
                PromoteActionView::Promote { group: g, channel: c, token: t } && g == group && c
                == channel@ && t == token@,
            PromoteAction::Finish(Ok(())) => action@ == PromoteActionView::Finish(Ok(())),
            PromoteAction::Finish(Err(error)) => action@ == PromoteActionView::Finish(
                Err(error@),
            ),
        },
        match e {
            PromoteError::APIClient(words) => e@ == PromoteErrorView::APIClient(words@),
            PromoteError::ParseIntError(error) => e@ == PromoteErrorView::ParseIntError(error),
            PromoteError::UI(words) => e@ == PromoteErrorView::UI(words@),
        },
{
}

} // verus!
