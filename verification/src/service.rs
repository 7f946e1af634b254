//! The registry under the names of the second version of the nexus: clients
//! register, listen on the messages for a target, and push messages to it.
use vstd::prelude::*;
use crate::clock::{wall_clock_nanos, MAX_DURATION_NANOS};
use crate::frame::spec_relay_frame;
use crate::registry::{expiry, push_outcome, subs_of, without_listener, Env, Relay};

verus! {

/// The registry of the second version of the nexus.
pub struct Service {
    env: Env,
}

impl Service {
    /// The registered clients, each with the sender that reaches it.
    pub closed spec fn spec_clients(&self) -> Map<Seq<char>, u64> {
        self.env.spec_eps()
    }

    /// The targets, each with its listeners: until when each listens, and
    /// through which sender.
    pub closed spec fn spec_listen(&self) -> Map<Seq<char>, Map<Seq<char>, (u128, u64)>> {
        self.env.spec_chans()
    }

    pub closed spec fn wf(&self) -> bool {
        self.env.wf()
    }

    /// A service with no clients.
    pub fn new() -> (r: Self)
        ensures
            r.wf(),
            r.spec_clients() == Map::<Seq<char>, u64>::empty(),
            r.spec_listen() == Map::<Seq<char>, Map<Seq<char>, (u128, u64)>>::empty(),
    {
        Service { env: Env::new() }
    }

    /// Records that client `id` is reached through `sender`.
    pub fn register_client(&mut self, id: String, sender: u64)
        requires
            old(self).wf(),
        ensures
            final(self).wf(),
            final(self).spec_clients() == old(self).spec_clients().insert(id@, sender),
            final(self).spec_listen() == old(self).spec_listen(),
    {
        self.env.add_ep(id, sender);
    }

    /// Makes client `src_id` listen on `target_id` until the instant
    /// `valid_sec` seconds and `valid_nanos` nanoseconds after the Unix epoch,
    /// and returns that instant; `None` for a client that has not registered.
    pub fn listen_channel(&mut self, src_id: String, target_id: String, valid_sec: u64, valid_nanos: u64) -> (r:
        Option<u128>)
        requires
            old(self).wf(),
        ensures
            final(self).wf(),
            final(self).spec_clients() == old(self).spec_clients(),
            r is Some <==> old(self).spec_clients().contains_key(src_id@),
            r is None ==> final(self).spec_listen() == old(self).spec_listen(),
            r matches Some(e) ==> {
                &&& e == expiry(valid_sec, valid_nanos)
                &&& final(self).spec_listen() == old(self).spec_listen().insert(
                    target_id@,
                    subs_of(old(self).spec_listen(), target_id@).insert(
                        src_id@,
                        (e, old(self).spec_clients()[src_id@]),
                    ),
                )
            },
    {
        self.env.ep_reg_chan(src_id, target_id, valid_sec, valid_nanos)
    }

    /// Pushes `msg` from `src_id` to the listeners of `dest_id` at `now`
    /// (see `Env::push_text_at`).
    pub fn push_message_at(&mut self, src_id: String, dest_id: String, msg: String, now: u128) -> (r:
        Relay)
        requires
            old(self).wf(),
        ensures
            final(self).wf(),
            final(self).spec_clients() == old(self).spec_clients(),
            r.frame@ == spec_relay_frame(src_id@, dest_id@, msg@),
            push_outcome(
                old(self).spec_listen(),
                final(self).spec_listen(),
                src_id@,
                dest_id@,
                r.recipients@,
                now,
            ),
    {
        self.env.push_text_at(src_id, dest_id, msg, now)
    }

    /// Pushes `msg` from `src_id` to the listeners of `dest_id`, at the
    /// current instant of the wall clock.
    pub fn push_message(&mut self, src_id: String, dest_id: String, msg: String) -> (r: Relay)
        requires
            old(self).wf(),
        ensures
            final(self).wf(),
            final(self).spec_clients() == old(self).spec_clients(),
            r.frame@ == spec_relay_frame(src_id@, dest_id@, msg@),
            exists|now: u128|
                now <= MAX_DURATION_NANOS && push_outcome(
                    old(self).spec_listen(),
                    final(self).spec_listen(),
                    src_id@,
                    dest_id@,
                    r.recipients@,
                    now,
                ),
    {
        let now = wall_clock_nanos();
        let ghost (src, dest) = (src_id@, dest_id@);
        let r = self.env.push_text_at(src_id, dest_id, msg, now);
        assert(now <= MAX_DURATION_NANOS && push_outcome(
            old(self).spec_listen(),
            self.spec_listen(),
            src,
            dest,
            r.recipients@,
            now,
        ));
        r
    }

    /// Forgets client `src_id`, and stops it listening anywhere.
    pub fn unregister_client(&mut self, src_id: String)
        requires
            old(self).wf(),
        ensures
            final(self).wf(),
            final(self).spec_clients() == old(self).spec_clients().remove(src_id@),
            final(self).spec_listen() == without_listener(old(self).spec_listen(), src_id@),
    {
        self.env.remove_ep(src_id);
    }
}

} // verus!
