//! The message under way through the router, with the addresses of those who passed it on.
use vstd::prelude::*;

use crate::net::{frames_view, Msg, MsgView};

verus! {

/// What an `Envelope` holds.
#[verifier::ext_equal]
pub ghost struct EnvelopeView {
    pub hops: Seq<Seq<u8>>,
    pub msg: Option<MsgView>,
    pub limit: nat,
}

impl EnvelopeView {
    /// Whether no further hop is taken in.
    pub open spec fn max_hops(self) -> bool {
        self.hops.len() >= self.limit
    }

    /// The envelope with one more hop.
    pub open spec fn with_hop(self, hop: Seq<u8>) -> EnvelopeView {
        EnvelopeView { hops: self.hops.push(hop), ..self }
    }

    /// The envelope before anything was put in.
    pub open spec fn emptied(self) -> EnvelopeView {
        EnvelopeView { hops: Seq::empty(), msg: None, limit: self.limit }
    }
}

/// The message under way through the router, with the addresses of those who passed it on,
/// latest first.
pub struct Envelope {
    hops: Vec<Vec<u8>>,
    msg: Option<Msg>,
    limit: usize,
}

impl View for Envelope {
    type V = EnvelopeView;

    closed spec fn view(&self) -> EnvelopeView {
        EnvelopeView {
            hops: frames_view(self.hops@),
            msg: match self.msg {
                Some(msg) => Some(msg@),
                None => None,
            },
            limit: self.limit as nat,
        }
    }
}

impl Envelope {
    /// An empty envelope that takes up to `limit` hops.
    pub fn new(limit: usize) -> (envelope: Envelope)
        ensures
            envelope@ == (EnvelopeView { hops: Seq::empty(), msg: None, limit: limit as nat }),
    {
        let envelope = Envelope { hops: Vec::new(), msg: None, limit };
        assert(envelope@.hops =~= Seq::empty());
        envelope
    }

    /// Whether no further hop is taken in.
    pub fn max_hops(&self) -> (full: bool)
        ensures
            full == self@.max_hops(),
    {
        self.hops.len() >= self.limit
    }

    /// The hops, latest first.
    pub fn hops(&self) -> (hops: &Vec<Vec<u8>>)
        ensures
            frames_view(hops@) == self@.hops,
    {
        &self.hops
    }

    /// Takes in a hop.
    pub fn add_hop(&mut self, hop: Vec<u8>)
        requires
            !old(self)@.max_hops(),
        ensures
            final(self)@ == old(self)@.with_hop(hop@),
    {
        self.hops.push(hop);
        assert(self@.hops =~= old(self)@.hops.push(hop@));
    }

    /// The message.
    pub fn msg(&self) -> (msg: Option<&Msg>)
        ensures
            match msg {
                Some(m) => self@.msg == Some(m@),
                None => self@.msg is None,
            },
    {
        self.msg.as_ref()
    }

    /// Puts the message in.
    pub fn set_msg(&mut self, msg: Msg)
        ensures
            final(self)@ == (EnvelopeView { msg: Some(msg@), ..old(self)@ }),
    {
        self.msg = Some(msg);
    }

    /// Takes everything out.
    pub fn reset(&mut self)
        ensures
            final(self)@ == old(self)@.emptied(),
    {
        self.hops.clear();
        self.msg = None;
        assert(self@.hops =~= Seq::empty());
    }
}

} // verus!
