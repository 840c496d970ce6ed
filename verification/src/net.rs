//! Plain values of the services' network protocol, and the frames that carry them.
use vstd::prelude::*;
use vstd::slice::slice_to_vec;
use vstd::utf8::{decode_utf8, valid_utf8};

verus! {

/// A service of the cluster, as route information names it.
#[derive(Debug, Clone, Copy, PartialEq, Eq, Structural)]
pub enum Protocol {
    /// The router itself.
    RouteSrv,
    /// A service behind the router, by its number.
    Service(u32),
}

impl Protocol {
    /// The number under which registrations of this protocol are kept.
    pub open spec fn spec_key(self) -> u64 {
        match self {
            Protocol::RouteSrv => 0,
            Protocol::Service(n) => (n + 1) as u64,
        }
    }

    /// The number under which registrations of this protocol are kept.
    #[verifier::when_used_as_spec(spec_key)]
    pub fn key(self) -> (key: u64)
        ensures
            key == self.spec_key(),
    {
        match self {
            Protocol::RouteSrv => 0,
            Protocol::Service(n) => n as u64 + 1,
        }
    }
}

/// The codes of a refusal that the builder acts on or gives.
#[derive(Debug, Clone, Copy, PartialEq, Eq, Structural)]
pub enum ErrCode {
    /// What was asked for does not exist.
    EntityNotFound,
    /// No server services the shard.
    NoShard,
    /// Any other code, by its number.
    Other(u32),
}

/// A refusal that came over the network.
#[derive(Debug)]
pub struct NetError {
    pub code: ErrCode,
    pub msg: String,
}

/// What a `NetError` says.
pub ghost struct NetErrorView {
    pub code: ErrCode,
    pub msg: Seq<char>,
}

impl View for NetError {
    type V = NetErrorView;

    open spec fn view(&self) -> NetErrorView {
        NetErrorView { code: self.code, msg: self.msg@ }
    }
}

/// Where a message is to be routed.
#[derive(Debug, Clone, Copy, PartialEq, Eq, Structural)]
pub struct RouteInfo {
    pub protocol: Protocol,
    /// The number that decides the shard, where the sender gave one.
    pub hash: Option<u64>,
}

/// A message under way.
#[derive(Debug)]
pub struct Msg {
    /// The name of the message's type.
    pub message_id: String,
    pub route_info: Option<RouteInfo>,
    /// The message's own encoded content.
    pub body: Vec<u8>,
    /// The whole message in its encoded form, as it is passed on.
    pub wire: Vec<u8>,
}

/// What a `Msg` holds.
pub ghost struct MsgView {
    pub message_id: Seq<char>,
    pub route_info: Option<RouteInfo>,
    pub body: Seq<u8>,
    pub wire: Seq<u8>,
}

impl View for Msg {
    type V = MsgView;

    open spec fn view(&self) -> MsgView {
        MsgView {
            message_id: self.message_id@,
            route_info: self.route_info,
            body: self.body@,
            wire: self.wire@,
        }
    }
}

/// The contents of a list of frames.
pub open spec fn frames_view(frames: Seq<Vec<u8>>) -> Seq<Seq<u8>> {
    frames.map_values(|frame: Vec<u8>| frame@)
}

/// A copy of a frame.
pub(crate) fn copy_frame(frame: &Vec<u8>) -> (copy: Vec<u8>)
    ensures
        copy@ == frame@,
{
    slice_to_vec(frame.as_slice())
}

/// Appends copies of `more`, from the frame at `from` on, to `frames`.
pub(crate) fn append_frames(frames: &mut Vec<Vec<u8>>, more: &Vec<Vec<u8>>, from: usize)
    requires
        from <= more.len(),
    ensures
        frames_view(final(frames)@) == frames_view(old(frames)@) + frames_view(more@).skip(
            from as int,
        ),
{
    for i in from..more.len()
        invariant
            frames_view(frames@) =~= frames_view(old(frames)@) + frames_view(more@).subrange(
                from as int,
                i as int,
            ),
            from <= more.len(),
    {
        let ghost before = frames@;
        let copy = copy_frame(&more[i]);
        frames.push(copy);
        proof {
            assert(frames_view(frames@) =~= frames_view(before).push(copy@));
            assert(frames_view(more@).subrange(from as int, i + 1) =~= frames_view(more@).subrange(
                from as int,
                i as int,
            ).push(copy@));
        }
    }
}

/// The text that a frame holds.
pub open spec fn text_of(frame: Seq<u8>) -> Option<Seq<char>> {
    if valid_utf8(frame) {
        Some(decode_utf8(frame))
    } else {
        None
    }
}

/// The text of a frame, by `zmq::Message::as_str` on a message made of a copy of the frame: there
/// is one exactly where the bytes are valid UTF-8, and it is what they encode.
#[verifier::external_body]
pub(crate) fn frame_text(frame: &[u8]) -> (text: Option<String>)
    ensures
        text.is_some() == text_of(frame@).is_some(),
        text matches Some(t) ==> t@ == text_of(frame@).unwrap(),
{
    zmq::Message::from(frame).as_str().map(|text| text.to_owned())
}

/// Whether two texts are the same.
pub(crate) fn same_text(a: &str, b: &str) -> (same: bool)
    ensures
        same == (a@ == b@),
{
    a.to_owned() == b.to_owned()
}

} // verus!
