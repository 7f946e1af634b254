//! The first nexus, whose protocol is version 1 without the disconnect
//! message; its fields are read as in version 1 (see `reader`).
use vstd::prelude::*;
use std::collections::VecDeque;
use crate::protocol::{opt_view, unidentified_reason, unsupported_version_reason, CloseCode, Reply, ReplyView};
use crate::reader::{spec_read_number, spec_read_string, try_read_number, try_read_string};
use crate::table::Table;
use crate::console::{trim_bounds, trimmed, ConsoleCommand};

verus! {

pub open spec fn invalid_type_reason() -> Seq<char> {
    "Invalid message type: expected 't' or 'c'"@
}

/// The reply of the first nexus to a message `s` of version 1 (version
/// character taken off), and the endpoint id after it.
pub open spec fn spec_handle_v1(ep: Option<Seq<char>>, s: Seq<char>) -> (Option<Seq<char>>, ReplyView) {
    if s.len() >= 2 && s[1] == '|' && s[0] == 'h' {
        match spec_read_string(s.skip(2)) {
            Some((id, _)) => (Some(id), ReplyView::Identify { ep_id: id }),
            None => (ep, ReplyView::NumberOverflow),
        }
    } else if s.len() >= 2 && s[1] == '|' && s[0] == 't' {
        (
            ep,
            match ep {
                Some(src) => match spec_read_string(s.skip(2)) {
                    Some((chan, s1)) => match spec_read_string(s1) {
                        Some((msg, _)) => ReplyView::Text { src_ep_id: src, chan_id: chan, text: msg },
                        None => ReplyView::NumberOverflow,
                    },
                    None => ReplyView::NumberOverflow,
                },
                None => ReplyView::Close { code: CloseCode::Status, reason: unidentified_reason() },
            },
        )
    } else if s.len() >= 2 && s[1] == '|' && s[0] == 'c' {
        (
            ep,
            match ep {
                Some(src) => match spec_read_string(s.skip(2)) {
                    Some((chan, s1)) => match spec_read_number(s1) {
                        Some((sec, s2)) => match spec_read_number(s2) {
                            Some((nanos, _)) => ReplyView::Chan {
                                src_ep_id: src,
                                chan_id: chan,
                                valid_until_sec: sec,
                                valid_until_nanos: nanos,
                            },
                            None => ReplyView::NumberOverflow,
                        },
                        None => ReplyView::NumberOverflow,
                    },
                    None => ReplyView::NumberOverflow,
                },
                None => ReplyView::Close { code: CloseCode::Status, reason: unidentified_reason() },
            },
        )
    } else {
        (ep, ReplyView::Close { code: CloseCode::Invalid, reason: invalid_type_reason() })
    }
}

/// The reply of the first nexus to a text message `s`.
pub open spec fn spec_handle_message(ep: Option<Seq<char>>, s: Seq<char>) -> (Option<Seq<char>>, ReplyView) {
    if s.len() >= 1 && s[0] == '1' {
        spec_handle_v1(ep, s.skip(1))
    } else {
        (ep, ReplyView::Close { code: CloseCode::Protocol, reason: unsupported_version_reason() })
    }
}

/// The protocol state of one connection of the first nexus.
pub struct MsgServiceHandler {
    ep_id: Option<String>,
}

impl MsgServiceHandler {
    /// The endpoint id that the connection has identified as, if any.
    pub closed spec fn spec_ep_id(&self) -> Option<Seq<char>> {
        opt_view(self.ep_id)
    }

    /// A connection that has not identified yet.
    pub fn new() -> (r: Self)
        ensures
            r.spec_ep_id() is None,
    {
        MsgServiceHandler { ep_id: None }
    }

    /// The endpoint id that the connection has identified as, if any.
    pub fn ep_id(&self) -> (r: Option<String>)
        ensures
            opt_view(r) == self.spec_ep_id(),
    {
        match &self.ep_id {
            Some(id) => Some(id.clone()),
            None => None,
        }
    }

    /// Answers a text message: the version is checked, then the message is
    /// read as version 1.
    pub fn handle_message_signal(&mut self, text: VecDeque<char>) -> (r: Reply)
        ensures
            (final(self).spec_ep_id(), r@) == spec_handle_message(old(self).spec_ep_id(), text@),
    {
        let mut text = text;
        let ghost s = text@;
        match text.pop_front() {
            Some(c) => {
                if c == '1' {
                    assert(text@ =~= s.skip(1));
                    self.handle_v1(text)
                } else {
                    Reply::Close {
                        code: CloseCode::Protocol,
                        reason: "Protocol other than '1' is not supported".to_owned(),
                    }
                }
            },
            None => Reply::Close {
                code: CloseCode::Protocol,
                reason: "Protocol other than '1' is not supported".to_owned(),
            },
        }
    }

    /// Answers a version 1 message by its type character: `h` identifies,
    /// `t` sends a text, `c` subscribes to a channel.
    pub fn handle_v1(&mut self, text: VecDeque<char>) -> (r: Reply)
        ensures
            (final(self).spec_ep_id(), r@) == spec_handle_v1(old(self).spec_ep_id(), text@),
    {
        let mut text = text;
        let ghost s = text@;
        let first = text.pop_front();
        let second = text.pop_front();
        let (t, b) = match (first, second) {
            (Some(t), Some(b)) => (t, b),
            _ => {
                return Reply::Close {
                    code: CloseCode::Invalid,
                    reason: "Invalid message type: expected 't' or 'c'".to_owned(),
                };
            },
        };
        assert(text@ =~= s.skip(2));
        if b == '|' && t == 'h' {
            match try_read_string(&mut text) {
                Some(ep_id) => {
                    self.ep_id = Some(ep_id.clone());
                    Reply::Identify { ep_id }
                },
                None => Reply::NumberOverflow,
            }
        } else if b == '|' && (t == 't' || t == 'c') {
            let src_ep_id = match &self.ep_id {
                Some(src) => src.clone(),
                None => {
                    return Reply::Close { code: CloseCode::Status, reason: "Connection unidentified".to_owned() };
                },
            };
            let chan_id = match try_read_string(&mut text) {
                Some(c) => c,
                None => {
                    return Reply::NumberOverflow;
                },
            };
            if t == 't' {
                match try_read_string(&mut text) {
                    Some(msg) => Reply::Text { src_ep_id, chan_id, text: msg },
                    None => Reply::NumberOverflow,
                }
            } else {
                match try_read_number(&mut text) {
                    Some(valid_until_sec) => match try_read_number(&mut text) {
                        Some(valid_until_nanos) => Reply::Chan {
                            src_ep_id,
                            chan_id,
                            valid_until_sec,
                            valid_until_nanos,
                        },
                        None => Reply::NumberOverflow,
                    },
                    None => Reply::NumberOverflow,
                }
            }
        } else {
            Reply::Close {
                code: CloseCode::Invalid,
                reason: "Invalid message type: expected 't' or 'c'".to_owned(),
            }
        }
    }
}

/// The registry of the first nexus: the identified endpoints, each with the
/// sender that reaches it.
pub struct Env {
    ep: Table<u64>,
}

impl Env {
    /// The identified endpoints, each with its sender.
    pub closed spec fn spec_eps(&self) -> Map<Seq<char>, u64> {
        self.ep@
    }

    pub closed spec fn wf(&self) -> bool {
        self.ep.wf()
    }

    /// An empty registry.
    pub fn new() -> (r: Self)
        ensures
            r.wf(),
            r.spec_eps() == Map::<Seq<char>, u64>::empty(),
    {
        Env { ep: Table::new() }
    }

    /// Records that endpoint `ep_id` is reached through `sender`.
    pub fn add_ep(&mut self, ep_id: String, sender: u64)
        requires
            old(self).wf(),
        ensures
            final(self).wf(),
            final(self).spec_eps() == old(self).spec_eps().insert(ep_id@, sender),
    {
        self.ep.insert(ep_id, sender);
    }
}

/// The command that a console line stands for on the first nexus: `q`
/// shuts it down, anything else is ignored.
pub fn parse_command(line: &[char]) -> (r: ConsoleCommand)
    ensures
        r == (if trimmed(line@) == seq!['q'] {
            ConsoleCommand::Quit
        } else {
            ConsoleCommand::Ignore
        }),
{
    let (i, j) = trim_bounds(line);
    if j - i == 1 && line[i] == 'q' {
        assert(line@.subrange(i as int, j as int) =~= seq!['q']);
        ConsoleCommand::Quit
    } else {
        proof {
            let t = line@.subrange(i as int, j as int);
            if t == seq!['q'] {
                assert(t[0] == line@[i as int]);
            }
        }
        ConsoleCommand::Ignore
    }
}

/// Only a handshake changes which endpoint a connection is: a reply that
/// identifies leaves the connection identified as the id it carries, every
/// other reply (a text, a subscription, a refusal) leaves the
/// identity as it was, and a text or a subscription goes out under the id
/// the connection already had, never from an unidentified connection.
pub proof fn lemma_identity_follows_handshakes(ep: Option<Seq<char>>, s: Seq<char>)
    ensures
        ({
            let (ep2, r) = spec_handle_message(ep, s);
            &&& r matches ReplyView::Identify { ep_id } ==> ep2 == Some(ep_id)
            &&& !(r is Identify) ==> ep2 == ep
            &&& r matches ReplyView::Text { src_ep_id, .. } ==> ep == Some(src_ep_id)
            &&& r matches ReplyView::Chan { src_ep_id, .. } ==> ep == Some(src_ep_id)
        }),
{
}

/// On the first nexus, a connection that has not identified can neither send
/// a text nor subscribe to a channel: such a message closes it with the
/// status code, and it stays unidentified.
pub proof fn lemma_unidentified_cannot_send(s: Seq<char>)
    requires
        s.len() >= 3,
        s[0] == '1',
        s[1] == 't' || s[1] == 'c',
        s[2] == '|',
    ensures
        spec_handle_message(None, s) == (
        None::<Seq<char>>,
        ReplyView::Close { code: CloseCode::Status, reason: unidentified_reason() },
        ),
{
    let v = s.skip(1);
    assert(v[0] == s[1] && v[1] == s[2]);
}

} // verus!
