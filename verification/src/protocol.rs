//! Version 1 of the client protocol, as the nexus reads it.
//!
//! A message is `<version><type>|<data>`:
//! * `1h|16|eafc5479a7e9f012` identifies the connection's endpoint;
//! * `1t|7|c/lobby|10|helloworld` sends a text on a channel;
//! * `1c|7|c/lobby|1548507103|2140083600` subscribes to a channel until the
//!   given time, in seconds and nanoseconds since the Unix epoch;
//! * `1d|11|just logout` asks the nexus to close the connection.
use vstd::prelude::*;
use std::collections::VecDeque;
use crate::reader::{spec_read_number, spec_read_string, try_read_number, try_read_string};

verus! {

/// The close codes with which the nexus ends a connection.
#[derive(Clone, Copy, Debug, PartialEq, Eq, Structural)]
pub enum CloseCode {
    Normal,
    Protocol,
    Unsupported,
    Status,
    Invalid,
}

/// What a message from a client asks of the nexus.
#[derive(Debug)]
pub enum Reply {
    /// The connection names its endpoint.
    Identify { ep_id: String },
    /// A text is to be relayed on a channel.
    Text { src_ep_id: String, chan_id: String, text: String },
    /// The endpoint subscribes to a channel until the given time, in seconds
    /// and nanoseconds since the Unix epoch.
    Chan { src_ep_id: String, chan_id: String, valid_until_sec: u64, valid_until_nanos: u64 },
    /// The connection is to be closed.
    Close { code: CloseCode, reason: String },
    /// A number in the message does not fit in a `u64`.
    NumberOverflow,
}

/// The mathematical value of a `Reply`.
pub enum ReplyView {
    Identify { ep_id: Seq<char> },
    Text { src_ep_id: Seq<char>, chan_id: Seq<char>, text: Seq<char> },
    Chan { src_ep_id: Seq<char>, chan_id: Seq<char>, valid_until_sec: u64, valid_until_nanos: u64 },
    Close { code: CloseCode, reason: Seq<char> },
    NumberOverflow,
}

impl View for Reply {
    type V = ReplyView;

    open spec fn view(&self) -> ReplyView {
        match self {
            Reply::Identify { ep_id } => ReplyView::Identify { ep_id: ep_id@ },
            Reply::Text { src_ep_id, chan_id, text } => ReplyView::Text {
                src_ep_id: src_ep_id@,
                chan_id: chan_id@,
                text: text@,
            },
            Reply::Chan { src_ep_id, chan_id, valid_until_sec, valid_until_nanos } => ReplyView::Chan {
                src_ep_id: src_ep_id@,
                chan_id: chan_id@,
                valid_until_sec: *valid_until_sec,
                valid_until_nanos: *valid_until_nanos,
            },
            Reply::Close { code, reason } => ReplyView::Close { code: *code, reason: reason@ },
            Reply::NumberOverflow => ReplyView::NumberOverflow,
        }
    }
}

/// A message as it arrives on a connection.
pub enum Message {
    /// A text message, as its characters.
    Text(VecDeque<char>),
    /// A binary message.
    Binary,
}

/// The optional endpoint id, as a value.
pub open spec fn opt_view(o: Option<String>) -> Option<Seq<char>> {
    match o {
        Some(s) => Some(s@),
        None => None,
    }
}

pub open spec fn unsupported_version_reason() -> Seq<char> {
    "Protocol other than '1' is not supported"@
}

pub open spec fn invalid_type_reason() -> Seq<char> {
    "Invalid message type: expected 'h', 't', 'c' or 'd'"@
}

pub open spec fn unidentified_reason() -> Seq<char> {
    "Connection unidentified"@
}

pub open spec fn binary_reason() -> Seq<char> {
    "Please input as string text"@
}

/// The reply to a handshake whose data is `s`, and the endpoint id after it.
pub open spec fn spec_handshake(ep: Option<Seq<char>>, s: Seq<char>) -> (Option<Seq<char>>, ReplyView) {
    match spec_read_string(s) {
        Some((id, _)) => (Some(id), ReplyView::Identify { ep_id: id }),
        None => (ep, ReplyView::NumberOverflow),
    }
}

/// The reply to a text message whose data is `s`.
pub open spec fn spec_text(ep: Option<Seq<char>>, s: Seq<char>) -> ReplyView {
    match ep {
        Some(src) => match spec_read_string(s) {
            Some((chan, s1)) => match spec_read_string(s1) {
                Some((text, _)) => ReplyView::Text { src_ep_id: src, chan_id: chan, text },
                None => ReplyView::NumberOverflow,
            },
            None => ReplyView::NumberOverflow,
        },
        None => ReplyView::Close { code: CloseCode::Status, reason: unidentified_reason() },
    }
}

/// The reply to a subscription message whose data is `s`.
pub open spec fn spec_chan(ep: Option<Seq<char>>, s: Seq<char>) -> ReplyView {
    match ep {
        Some(src) => match spec_read_string(s) {
            Some((chan, s1)) => match spec_read_number(s1) {
                Some((sec, s2)) => match spec_read_number(s2) {
                    Some((nanos, _)) => ReplyView::Chan {
                        src_ep_id: src,
                        chan_id: chan,
                        valid_until_sec: sec,
                        valid_until_nanos: nanos,
                    },
                    None => ReplyView::NumberOverflow,
                },
                None => ReplyView::NumberOverflow,
            },
            None => ReplyView::NumberOverflow,
        },
        None => ReplyView::Close { code: CloseCode::Status, reason: unidentified_reason() },
    }
}

/// The reply to a disconnect message whose data is `s`.
pub open spec fn spec_disconnect(s: Seq<char>) -> ReplyView {
    match spec_read_string(s) {
        Some((reason, _)) => ReplyView::Close { code: CloseCode::Normal, reason },
        None => ReplyView::NumberOverflow,
    }
}

/// The reply to a version 1 message `s` (its version character taken off),
/// and the endpoint id after it.
pub open spec fn spec_handle_v1(ep: Option<Seq<char>>, s: Seq<char>) -> (Option<Seq<char>>, ReplyView) {
    if s.len() >= 2 && s[1] == '|' && s[0] == 'h' {
        spec_handshake(ep, s.skip(2))
    } else if s.len() >= 2 && s[1] == '|' && s[0] == 't' {
        (ep, spec_text(ep, s.skip(2)))
    } else if s.len() >= 2 && s[1] == '|' && s[0] == 'c' {
        (ep, spec_chan(ep, s.skip(2)))
    } else if s.len() >= 2 && s[1] == '|' && s[0] == 'd' {
        (ep, spec_disconnect(s.skip(2)))
    } else {
        (ep, ReplyView::Close { code: CloseCode::Invalid, reason: invalid_type_reason() })
    }
}

/// The reply to a text message `s`, and the endpoint id after it.
pub open spec fn spec_handle_message(ep: Option<Seq<char>>, s: Seq<char>) -> (Option<Seq<char>>, ReplyView) {
    if s.len() >= 1 && s[0] == '1' {
        spec_handle_v1(ep, s.skip(1))
    } else {
        (ep, ReplyView::Close { code: CloseCode::Protocol, reason: unsupported_version_reason() })
    }
}

/// The protocol state of one connection: the endpoint it has identified as.
pub struct MsgServiceHandler {
    ep_id: Option<String>,
}

impl MsgServiceHandler {
    /// The endpoint id that the connection has identified as, if any.
    pub closed spec fn spec_ep_id(&self) -> Option<Seq<char>> {
        opt_view(self.ep_id)
    }

    /// A connection that has not identified yet.
    pub fn new() -> (r: Self)
        ensures
            r.spec_ep_id() is None,
    {
        MsgServiceHandler { ep_id: None }
    }

    /// The endpoint id that the connection has identified as, if any.
    pub fn ep_id(&self) -> (r: Option<String>)
        ensures
            opt_view(r) == self.spec_ep_id(),
    {
        match &self.ep_id {
            Some(id) => Some(id.clone()),
            None => None,
        }
    }

    /// Answers a message: text is read as the protocol, binary is refused.
    pub fn on_message(&mut self, msg: Message) -> (r: Reply)
        ensures
            match msg {
                Message::Text(text) => (final(self).spec_ep_id(), r@) == spec_handle_message(
                    old(self).spec_ep_id(),
                    text@,
                ),
                Message::Binary => final(self).spec_ep_id() == old(self).spec_ep_id() && r@
                    == (ReplyView::Close { code: CloseCode::Unsupported, reason: binary_reason() }),
            },
    {
        match msg {
            Message::Text(text) => self.handle_message_signal(text),
            Message::Binary => Reply::Close {
                code: CloseCode::Unsupported,
                reason: "Please input as string text".to_owned(),
            },
        }
    }

    /// Answers a text message: the version is checked, then the message is
    /// read as version 1.
    pub fn handle_message_signal(&mut self, text: VecDeque<char>) -> (r: Reply)
        ensures
            (final(self).spec_ep_id(), r@) == spec_handle_message(old(self).spec_ep_id(), text@),
    {
        let mut text = text;
        let ghost s = text@;
        match text.pop_front() {
            Some(c) => {
                if c == '1' {
                    assert(text@ =~= s.skip(1));
                    self.handle_v1(text)
                } else {
                    Reply::Close {
                        code: CloseCode::Protocol,
                        reason: "Protocol other than '1' is not supported".to_owned(),
                    }
                }
            },
            None => Reply::Close {
                code: CloseCode::Protocol,
                reason: "Protocol other than '1' is not supported".to_owned(),
            },
        }
    }

    /// Answers a version 1 message by its type character.
    pub fn handle_v1(&mut self, text: VecDeque<char>) -> (r: Reply)
        ensures
            (final(self).spec_ep_id(), r@) == spec_handle_v1(old(self).spec_ep_id(), text@),
    {
        let mut text = text;
        let ghost s = text@;
        let first = text.pop_front();
        let second = text.pop_front();
        match (first, second) {
            (Some(t), Some(b)) => {
                assert(text@ =~= s.skip(2));
                if b == '|' && t == 'h' {
                    self.handle_v1_handshake(text)
                } else if b == '|' && t == 't' {
                    self.handle_v1_text(text)
                } else if b == '|' && t == 'c' {
                    self.handle_v1_chan(text)
                } else if b == '|' && t == 'd' {
                    self.handle_v1_disconnect(text)
                } else {
                    Self::invalid_type()
                }
            },
            _ => Self::invalid_type(),
        }
    }

    fn invalid_type() -> (r: Reply)
        ensures
            r@ == (ReplyView::Close { code: CloseCode::Invalid, reason: invalid_type_reason() }),
    {
        Reply::Close {
            code: CloseCode::Invalid,
            reason: "Invalid message type: expected 'h', 't', 'c' or 'd'".to_owned(),
        }
    }

    fn unidentified() -> (r: Reply)
        ensures
            r@ == (ReplyView::Close { code: CloseCode::Status, reason: unidentified_reason() }),
    {
        Reply::Close { code: CloseCode::Status, reason: "Connection unidentified".to_owned() }
    }

    /// `16|eafc5479a7e9f012`: the connection identifies as an endpoint.
    pub fn handle_v1_handshake(&mut self, text: VecDeque<char>) -> (r: Reply)
        ensures
            (final(self).spec_ep_id(), r@) == spec_handshake(old(self).spec_ep_id(), text@),
    {
        let mut text = text;
        match try_read_string(&mut text) {
            Some(ep_id) => {
                self.ep_id = Some(ep_id.clone());
                Reply::Identify { ep_id }
            },
            None => Reply::NumberOverflow,
        }
    }

    /// `7|c/lobby|10|helloworld`: a text for a channel.
    pub fn handle_v1_text(&self, text: VecDeque<char>) -> (r: Reply)
        ensures
            r@ == spec_text(self.spec_ep_id(), text@),
    {
        let mut text = text;
        match &self.ep_id {
            Some(src) => {
                let src_ep_id = src.clone();
                match try_read_string(&mut text) {
                    Some(chan_id) => match try_read_string(&mut text) {
                        Some(body) => Reply::Text { src_ep_id, chan_id, text: body },
                        None => Reply::NumberOverflow,
                    },
                    None => Reply::NumberOverflow,
                }
            },
            None => Self::unidentified(),
        }
    }

    /// `7|c/lobby|1548507103|2140083600`: a subscription to a channel.
    pub fn handle_v1_chan(&self, text: VecDeque<char>) -> (r: Reply)
        ensures
            r@ == spec_chan(self.spec_ep_id(), text@),
    {
        let mut text = text;
        match &self.ep_id {
            Some(src) => {
                let src_ep_id = src.clone();
                match try_read_string(&mut text) {
                    Some(chan_id) => match try_read_number(&mut text) {
                        Some(valid_until_sec) => match try_read_number(&mut text) {
                            Some(valid_until_nanos) => Reply::Chan {
                                src_ep_id,
                                chan_id,
                                valid_until_sec,
                                valid_until_nanos,
                            },
                            None => Reply::NumberOverflow,
                        },
                        None => Reply::NumberOverflow,
                    },
                    None => Reply::NumberOverflow,
                }
            },
            None => Self::unidentified(),
        }
    }

    /// `11|just logout`: the client asks to be disconnected with a reason.
    pub fn handle_v1_disconnect(&self, text: VecDeque<char>) -> (r: Reply)
        ensures
            r@ == spec_disconnect(text@),
    {
        let mut text = text;
        match try_read_string(&mut text) {
            Some(reason) => Reply::Close { code: CloseCode::Normal, reason },
            None => Reply::NumberOverflow,
        }
    }
}

/// A connection that has not identified can neither send a text nor
/// subscribe to a channel: such a message closes it with the status code,
/// and it stays unidentified.
pub proof fn lemma_unidentified_cannot_send(s: Seq<char>)
    requires
        s.len() >= 3,
        s[0] == '1',
        s[1] == 't' || s[1] == 'c',
        s[2] == '|',
    ensures
        spec_handle_message(None, s) == (
        None::<Seq<char>>,
        ReplyView::Close { code: CloseCode::Status, reason: unidentified_reason() },
        ),
{
    let v = s.skip(1);
    assert(v[0] == s[1] && v[1] == s[2]);
}

/// A handshake makes the connection identify as the id it carries, and a
/// text sent after it goes out under that id.
pub proof fn lemma_text_after_handshake_carries_id(
    ep: Option<Seq<char>>,
    handshake: Seq<char>,
    text: Seq<char>,
    id: Seq<char>,
)
    requires
        spec_handle_message(ep, handshake).1 == (ReplyView::Identify { ep_id: id }),
        text.len() >= 3,
        text[0] == '1',
        text[1] == 't',
        text[2] == '|',
    ensures
        spec_handle_message(ep, handshake).0 == Some(id),
        spec_handle_message(Some(id), text).0 == Some(id),
        spec_handle_message(Some(id), text).1 matches ReplyView::Text { src_ep_id, .. } ==> src_ep_id == id,
        spec_handle_message(Some(id), text).1 is Text || spec_handle_message(Some(id), text).1 is NumberOverflow,
{
    let v = text.skip(1);
    assert(v[0] == text[1] && v[1] == text[2]);
    if handshake.len() >= 1 && handshake[0] == '1' {
        let w = handshake.skip(1);
        if w.len() >= 2 && w[1] == '|' && w[0] == 'h' {
        } else if w.len() >= 2 && w[1] == '|' && (w[0] == 't' || w[0] == 'c' || w[0] == 'd') {
            assert(spec_handle_message(ep, handshake).1 !is Identify);
        }
    }
}

/// Only a handshake changes which endpoint a connection is: a reply that
/// identifies leaves the connection identified as the id it carries, every
/// other reply (a text, a subscription, a disconnect, a refusal) leaves the
/// identity as it was, and a text or a subscription goes out under the id
/// the connection already had, never from an unidentified connection.
pub proof fn lemma_identity_follows_handshakes(ep: Option<Seq<char>>, s: Seq<char>)
    ensures
        ({
            let (ep2, r) = spec_handle_message(ep, s);
            &&& r matches ReplyView::Identify { ep_id } ==> ep2 == Some(ep_id)
            &&& !(r is Identify) ==> ep2 == ep
            &&& r matches ReplyView::Text { src_ep_id, .. } ==> ep == Some(src_ep_id)
            &&& r matches ReplyView::Chan { src_ep_id, .. } ==> ep == Some(src_ep_id)
        }),
{
}

} // verus!
