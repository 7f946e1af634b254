//! Version 2 of the client protocol, as its websocket adapter reads it.
//!
//! A message is `2<type>|<data>`; the one type so far is `2i|<len>|<id>`, by
//! which a connection identifies.
use vstd::prelude::*;
use std::collections::VecDeque;
use crate::protocol::{opt_view, CloseCode, Reply, ReplyView};
use crate::reader::{spec_read_string, try_read_string};

verus! {

pub open spec fn v2_unsupported_version_reason() -> Seq<char> {
    "Protocol not supported"@
}

pub open spec fn v2_invalid_type_reason() -> Seq<char> {
    "Invalid message type"@
}

pub open spec fn v2_binary_reason() -> Seq<char> {
    "Please send string message"@
}

/// The reply to an identify message whose data is `s`, and the id after it.
pub open spec fn spec_v2_identify(id: Option<Seq<char>>, s: Seq<char>) -> (Option<Seq<char>>, ReplyView) {
    match spec_read_string(s) {
        Some((v, _)) => (Some(v), ReplyView::Identify { ep_id: v }),
        None => (id, ReplyView::NumberOverflow),
    }
}

/// The reply to a version 2 message `s` (its version character taken off).
pub open spec fn spec_handle_v2(id: Option<Seq<char>>, s: Seq<char>) -> (Option<Seq<char>>, ReplyView) {
    if s.len() >= 2 && s[0] == 'i' && s[1] == '|' {
        spec_v2_identify(id, s.skip(2))
    } else {
        (id, ReplyView::Close { code: CloseCode::Invalid, reason: v2_invalid_type_reason() })
    }
}

/// The reply to a text message `s`, and the id after it.
pub open spec fn spec_v2_message(id: Option<Seq<char>>, s: Seq<char>) -> (Option<Seq<char>>, ReplyView) {
    if s.len() >= 1 && s[0] == '2' {
        spec_handle_v2(id, s.skip(1))
    } else {
        (id, ReplyView::Close { code: CloseCode::Protocol, reason: v2_unsupported_version_reason() })
    }
}

/// The protocol state of one connection of the second version, beside the
/// handler that the user of the library supplied for it.
pub struct WsHandlerAdapt<H> {
    pub inner: H,
    echat_id: Option<String>,
}

impl<H> WsHandlerAdapt<H> {
    /// The user's handler for this connection.
    pub closed spec fn spec_inner(&self) -> H {
        self.inner
    }

    /// The id that the connection has identified as, if any.
    pub closed spec fn spec_echat_id(&self) -> Option<Seq<char>> {
        opt_view(self.echat_id)
    }

    /// A connection that has not identified yet, served by `inner`.
    pub fn new(inner: H) -> (r: Self)
        ensures
            r.spec_inner() == inner,
            r.spec_echat_id() is None,
    {
        WsHandlerAdapt { inner, echat_id: None }
    }

    /// Answers a text message: the version is checked, then the message is
    /// read as version 2.
    pub fn handle_message_signal(&mut self, text: VecDeque<char>) -> (r: Reply)
        ensures
            final(self).spec_inner() == old(self).spec_inner(),
            (final(self).spec_echat_id(), r@) == spec_v2_message(old(self).spec_echat_id(), text@),
    {
        let mut text = text;
        let ghost s = text@;
        match text.pop_front() {
            Some(c) => {
                if c == '2' {
                    assert(text@ =~= s.skip(1));
                    self.handle_v2(text)
                } else {
                    Reply::Close { code: CloseCode::Protocol, reason: "Protocol not supported".to_owned() }
                }
            },
            None => Reply::Close { code: CloseCode::Protocol, reason: "Protocol not supported".to_owned() },
        }
    }

    /// Answers a binary message: it is refused.
    pub fn on_binary(&self) -> (r: Reply)
        ensures
            r@ == (ReplyView::Close { code: CloseCode::Unsupported, reason: v2_binary_reason() }),
    {
        Reply::Close { code: CloseCode::Unsupported, reason: "Please send string message".to_owned() }
    }

    /// Answers a version 2 message by its type character.
    pub fn handle_v2(&mut self, text: VecDeque<char>) -> (r: Reply)
        ensures
            final(self).spec_inner() == old(self).spec_inner(),
            (final(self).spec_echat_id(), r@) == spec_handle_v2(old(self).spec_echat_id(), text@),
    {
        let mut text = text;
        let ghost s = text@;
        let first = text.pop_front();
        let second = text.pop_front();
        match (first, second) {
            (Some(t), Some(b)) => {
                if t == 'i' && b == '|' {
                    assert(text@ =~= s.skip(2));
                    self.handle_v2_identify(text)
                } else {
                    Reply::Close { code: CloseCode::Invalid, reason: "Invalid message type".to_owned() }
                }
            },
            _ => Reply::Close { code: CloseCode::Invalid, reason: "Invalid message type".to_owned() },
        }
    }

    /// `<len>|<id>`: the connection identifies.
    pub fn handle_v2_identify(&mut self, text: VecDeque<char>) -> (r: Reply)
        ensures
            final(self).spec_inner() == old(self).spec_inner(),
            (final(self).spec_echat_id(), r@) == spec_v2_identify(old(self).spec_echat_id(), text@),
    {
        let mut text = text;
        match try_read_string(&mut text) {
            Some(id) => {
                self.echat_id = Some(id.clone());
                Reply::Identify { ep_id: id }
            },
            None => Reply::NumberOverflow,
        }
    }
}

/// Only an identify message changes which id a connection has: a reply
/// that identifies leaves it identified as the id it carries, and every
/// other reply leaves the id as it was.
pub proof fn lemma_identity_follows_identify(id: Option<Seq<char>>, s: Seq<char>)
    ensures
        ({
            let (id2, r) = spec_v2_message(id, s);
            &&& r matches ReplyView::Identify { ep_id } ==> id2 == Some(ep_id)
            &&& !(r is Identify) ==> id2 == id
            &&& !(r is Text) && !(r is Chan)
        }),
{
}

} // verus!
