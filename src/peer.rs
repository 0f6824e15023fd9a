//! The negotiation orchestrator's decisions: what the negotiation engine is
//! asked to do for each scheduler command, and which descriptor goes back.
use vstd::prelude::*;

use vstd::string::StringSliceAdditionalSpecFns;

use vstd::utf8::encode_utf8;

use crate::utils::crypto::{
    base64_decoded, base64_of, decode_b64, encode_b64, text_of, text_view, CryptoError,
};
use crate::scheduler::{Command, PeerCommand};
use crate::state::{UserId, SDP};

verus! {

/// Where the orchestrator stands in the handshake.
#[derive(Clone, Copy, Debug, PartialEq, Eq, Structural)]
pub enum NegotiationStep {
    /// No engine work pending.
    Idle,
    /// A session was opened to answer a call; its descriptor goes out as the
    /// call answer.
    Offering,
    /// The answer went out; the remote reply is awaited.
    AwaitingReply,
    /// A remote answer was taken; the local descriptor goes out as the reply.
    Answering,
    /// Both descriptors are in place.
    Complete,
}

/// What the negotiation engine is to do next.
#[derive(Clone, Debug, PartialEq)]
pub enum EngineAction {
    Nothing,
    /// Open a fresh session and a data channel, create an offer, set it as
    /// the local description and wait for candidate gathering.
    CreateOffer,
    /// Set the decoded descriptor as the remote description; negotiation is
    /// then complete.
    AcceptRemote(SDP),
    /// Set the decoded descriptor as the remote description, create an
    /// answer, set it as the local description and wait for candidate
    /// gathering.
    AnswerRemote(SDP),
    /// The descriptor could not be decoded; it is dropped.
    Reject(CryptoError),
}

/// An event that the negotiation engine reports.
#[derive(Clone, Copy, Debug, PartialEq, Eq, Structural)]
pub enum EngineEvent {
    ChannelOpen,
    Failed,
    Other,
}

/// The orchestrator's state, as mathematical values.
pub struct PeerView {
    pub remote: Option<Seq<char>>,
    pub remote_description: Option<Seq<char>>,
    pub step: NegotiationStep,
}

/// The negotiation orchestrator for one remote peer at a time.
pub struct Peer {
    remote: Option<UserId>,
    remote_description: Option<SDP>,
    step: NegotiationStep,
}

/// The view of an optional string.
pub open spec fn opt_view(o: Option<String>) -> Option<Seq<char>> {
    match o {
        Some(s) => Some(s@),
        None => None,
    }
}

impl View for Peer {
    type V = PeerView;

    closed spec fn view(&self) -> PeerView {
        PeerView {
            remote: opt_view(self.remote),
            remote_description: opt_view(self.remote_description),
            step: self.step,
        }
    }
}

impl Peer {
    /// An idle orchestrator with no remote peer.
    pub fn new() -> (r: Self)
        ensures
            r@ == (PeerView { remote: None, remote_description: None, step: NegotiationStep::Idle }),
    {
        Peer { remote: None, remote_description: None, step: NegotiationStep::Idle }
    }

    /// The remote peer whose call this side accepted, if any.
    pub fn remote(&self) -> (r: Option<UserId>)
        ensures
            opt_view(r) == self@.remote,
    {
        match &self.remote {
            Some(s) => Some(s.clone()),
            None => None,
        }
    }

    /// The last remote descriptor taken, decoded.
    pub fn remote_description(&self) -> (r: Option<SDP>)
        ensures
            opt_view(r) == self@.remote_description,
    {
        match &self.remote_description {
            Some(s) => Some(s.clone()),
            None => None,
        }
    }

    /// Where the orchestrator stands in the handshake.
    pub fn step(&self) -> (r: NegotiationStep)
        ensures
            r == self@.step,
    {
        self.step
    }

    /// Takes a decoded remote descriptor: an answer (`is_reply` false) is to
    /// be replied to, a reply completes the negotiation; one that could not
    /// be decoded is rejected and changes nothing.
    pub fn establish(&mut self, decoded: Result<String, CryptoError>, is_reply: bool) -> (a:
        EngineAction)
        ensures
            takes_descriptor(old(self)@, final(self)@, a, text_view(decoded), is_reply),
    {
        match decoded {
            Err(e) => EngineAction::Reject(e),
            Ok(d) => {
                self.remote_description = Some(d.clone());
                if is_reply {
                    self.step = NegotiationStep::Complete;
                    EngineAction::AcceptRemote(d)
                } else {
                    self.step = NegotiationStep::Answering;
                    EngineAction::AnswerRemote(d)
                }
            },
        }
    }

    /// What the engine is to do for a command from the scheduler. A new peer
    /// connection starts an offer; a remote descriptor is base64-decoded and
    /// taken as `establish` says; other commands are not for this component.
    pub fn handle(&mut self, command: PeerCommand) -> (a: EngineAction)
        ensures
            match command {
                PeerCommand::NewPeerConnection(r) => a == EngineAction::CreateOffer
                    && final(self)@ == (PeerView {
                    remote: Some(r@),
                    remote_description: None,
                    step: NegotiationStep::Offering,
                }),
                PeerCommand::EstablishConnection(d, is_reply) => takes_descriptor(
                    old(self)@,
                    final(self)@,
                    a,
                    text_of(base64_decoded(encode_utf8(d@))),
                    is_reply,
                ),
                _ => a == EngineAction::Nothing && final(self)@ == old(self)@,
            },
    {
        match command {
            PeerCommand::NewPeerConnection(r) => {
                self.remote = Some(r);
                self.remote_description = None;
                self.step = NegotiationStep::Offering;
                EngineAction::CreateOffer
            },
            PeerCommand::EstablishConnection(d, is_reply) => {
                let decoded = decode_b64(d.as_str());
                self.establish(decoded, is_reply)
            },
            _ => EngineAction::Nothing,
        }
    }

    /// Sends the base64 text of the local descriptor that the engine produced:
    /// as the call answer after an offer, as the reply after an answer.
    pub fn send_local(&mut self, encoded: String) -> (c: Option<Command>)
        ensures
            sends_local(old(self)@, final(self)@, c, encoded@),
    {
        match self.step {
            NegotiationStep::Offering => {
                self.step = NegotiationStep::AwaitingReply;
                Some(Command::Peer(PeerCommand::CallAnswer(encoded)))
            },
            NegotiationStep::Answering => {
                self.step = NegotiationStep::Complete;
                Some(Command::Peer(PeerCommand::CallReply(encoded)))
            },
            _ => None,
        }
    }

    /// Encodes the serialized local descriptor that the engine produced and
    /// sends it as `send_local` says.
    pub fn on_local_description(&mut self, local: &str) -> (c: Option<Command>)
        requires
            local.spec_bytes().len() <= isize::MAX,
        ensures
            sends_local(old(self)@, final(self)@, c, base64_of(local.spec_bytes())),
    {
        let encoded = encode_b64(local);
        self.send_local(encoded)
    }

    /// What the scheduler is told of an engine event: the channel opened, or
    /// the connection failed, which also ends this negotiation.
    pub fn on_engine_event(&mut self, event: EngineEvent) -> (c: Option<Command>)
        ensures
            match event {
                EngineEvent::ChannelOpen => c == Some(Command::Peer(PeerCommand::ChannelOpen))
                    && final(self)@ == old(self)@,
                EngineEvent::Failed => c == Some(Command::Peer(PeerCommand::ConnectionFailed))
                    && final(self)@ == (PeerView {
                    remote: None,
                    remote_description: None,
                    step: NegotiationStep::Idle,
                }),
                EngineEvent::Other => c is None && final(self)@ == old(self)@,
            },
    {
        match event {
            EngineEvent::ChannelOpen => Some(Command::Peer(PeerCommand::ChannelOpen)),
            EngineEvent::Failed => {
                self.remote = None;
                self.remote_description = None;
                self.step = NegotiationStep::Idle;
                Some(Command::Peer(PeerCommand::ConnectionFailed))
            },
            EngineEvent::Other => None,
        }
    }
}

/// `a` and the move from `before` to `after` are what taking the decoded
/// descriptor `t` asks for.
pub open spec fn takes_descriptor(
    before: PeerView,
    after: PeerView,
    a: EngineAction,
    t: Result<Seq<char>, CryptoError>,
    is_reply: bool,
) -> bool {
    match t {
        Err(e) => a == EngineAction::Reject(e) && after == before,
        Ok(d) => {
            &&& after == PeerView {
                remote: before.remote,
                remote_description: Some(d),
                step: if is_reply {
                    NegotiationStep::Complete
                } else {
                    NegotiationStep::Answering
                },
            }
            &&& match a {
                EngineAction::AcceptRemote(x) => is_reply && x@ == d,
                EngineAction::AnswerRemote(x) => !is_reply && x@ == d,
                _ => false,
            }
        },
    }
}

/// `c` and the move from `before` to `after` are what sending the encoded
/// local descriptor `encoded` asks for.
pub open spec fn sends_local(
    before: PeerView,
    after: PeerView,
    c: Option<Command>,
    encoded: Seq<char>,
) -> bool {
    match before.step {
        NegotiationStep::Offering => {
            &&& after == PeerView { step: NegotiationStep::AwaitingReply, ..before }
            &&& match c {
                Some(Command::Peer(PeerCommand::CallAnswer(x))) => x@ == encoded,
                _ => false,
            }
        },
        NegotiationStep::Answering => {
            &&& after == PeerView { step: NegotiationStep::Complete, ..before }
            &&& match c {
                Some(Command::Peer(PeerCommand::CallReply(x))) => x@ == encoded,
                _ => false,
            }
        },
        _ => after == before && c is None,
    }
}

} // verus!
