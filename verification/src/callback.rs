//! The callback channel bridge: channels through which the managed runtime
//! delivers handles to the host outside the call that triggered them.
//!
//! A registration is named by an opaque integer that is handed to the managed
//! runtime. Delivery looks the integer up in the registry; it is never
//! reinterpreted as an address. A registration is never removed: its channel
//! stays in the registry until the runtime itself goes away.

use vstd::prelude::*;
use crate::errors::{ErrorModel, J4RsError};
use crate::handles::{HandleModel, Instance};

verus! {

/// The capability for one registration, as the managed runtime holds it.
#[derive(Clone, Copy, Debug, PartialEq, Eq, Structural)]
pub struct RegistrationToken {
    pub address: u64,
}

/// The receiving end of one callback channel.
#[derive(Debug)]
pub struct InstanceReceiver {
    token: RegistrationToken,
}

impl InstanceReceiver {
    /// The registration this receiver drains.
    pub closed spec fn registration(&self) -> RegistrationToken {
        self.token
    }

    pub(crate) fn new(token: RegistrationToken) -> (r: InstanceReceiver)
        ensures
            r.registration() == token,
    {
        InstanceReceiver { token }
    }

    /// The registration this receiver drains.
    pub fn token(&self) -> (t: RegistrationToken)
        ensures
            t == self.registration(),
    {
        self.token
    }
}

/// The datum that crosses the bridge entry point: the managed object that
/// is delivered, and the registration it is delivered to.
#[derive(Clone, Copy, Debug, PartialEq, Eq, Structural)]
pub struct CallbackEnvelope {
    pub token: RegistrationToken,
    pub object: usize,
}

/// One channel.
#[derive(Debug)]
pub struct Channel {
    queue: Vec<Instance>,
    open: bool,
}

/// The mathematical model of a [`Channel`]: the handles that were delivered
/// and not yet received, oldest first, and whether the receiving end is
/// still there.
pub struct ChannelModel {
    pub queue: Seq<HandleModel>,
    pub open: bool,
}

impl View for Channel {
    type V = ChannelModel;

    closed spec fn view(&self) -> ChannelModel {
        ChannelModel { queue: Seq::new(self.queue@.len(), |i: int| self.queue@[i]@), open: self.open }
    }
}

/// The registry of all registrations of a runtime.
#[derive(Debug)]
pub struct CallbackRegistry {
    channels: Vec<Channel>,
}

impl View for CallbackRegistry {
    type V = Seq<ChannelModel>;

    closed spec fn view(&self) -> Seq<ChannelModel> {
        Seq::new(self.channels@.len(), |i: int| self.channels@[i]@)
    }
}

/// Whether `token` names a registration whose receiving end is still there.
pub open spec fn is_deliverable(registry: Seq<ChannelModel>, token: RegistrationToken) -> bool {
    token.address < registry.len() && registry[token.address as int].open
}

/// The registry after `handle` has been delivered to `token`: it is added
/// at the end of the channel's queue where the channel can be delivered to,
/// and nothing changes otherwise.
pub open spec fn after_delivery(
    registry: Seq<ChannelModel>,
    token: RegistrationToken,
    handle: HandleModel,
) -> Seq<ChannelModel> {
    if is_deliverable(registry, token) {
        registry.update(
            token.address as int,
            ChannelModel { queue: registry[token.address as int].queue.push(handle), open: true },
        )
    } else {
        registry
    }
}

/// The handle a receive on `token` yields: the oldest one in the queue.
pub open spec fn next_in_queue(registry: Seq<ChannelModel>, token: RegistrationToken) -> Option<
    HandleModel,
> {
    if token.address < registry.len() && registry[token.address as int].queue.len() > 0 {
        Some(registry[token.address as int].queue[0])
    } else {
        None
    }
}

/// The registry after a receive on `token`.
pub open spec fn after_receive(registry: Seq<ChannelModel>, token: RegistrationToken) -> Seq<
    ChannelModel,
> {
    if token.address < registry.len() && registry[token.address as int].queue.len() > 0 {
        registry.update(
            token.address as int,
            ChannelModel {
                queue: registry[token.address as int].queue.subrange(
                    1,
                    registry[token.address as int].queue.len() as int,
                ),
                open: registry[token.address as int].open,
            },
        )
    } else {
        registry
    }
}

/// The registry after the receiving end of `token` has gone: the channel is
/// closed, and what waits in its queue stays there.
pub open spec fn after_close(registry: Seq<ChannelModel>, token: RegistrationToken) -> Seq<
    ChannelModel,
> {
    if token.address < registry.len() {
        registry.update(
            token.address as int,
            ChannelModel { queue: registry[token.address as int].queue, open: false },
        )
    } else {
        registry
    }
}

impl CallbackRegistry {
    /// A registry without registrations.
    pub fn new() -> (r: CallbackRegistry)
        ensures
            r@ == Seq::<ChannelModel>::empty(),
    {
        let r = CallbackRegistry { channels: Vec::new() };
        assert(r@ =~= Seq::<ChannelModel>::empty());
        r
    }

    /// The number of registrations.
    pub fn len(&self) -> (n: usize)
        ensures
            n == self@.len(),
    {
        self.channels.len()
    }

    /// Registers a new, empty channel and returns its capability.
    pub fn register(&mut self) -> (token: RegistrationToken)
        ensures
            token.address == old(self)@.len(),
            final(self)@ == old(self)@.push(ChannelModel { queue: Seq::empty(), open: true }),
    {
        let address = self.channels.len() as u64;
        let channel = Channel { queue: Vec::new(), open: true };
        assert(channel@.queue =~= Seq::<HandleModel>::empty());
        self.channels.push(channel);
        assert(self@ =~= old(self)@.push(ChannelModel { queue: Seq::empty(), open: true }));
        RegistrationToken { address }
    }

    /// Whether `token` names a registration whose receiving end is still
    /// there.
    pub fn is_deliverable(&self, token: RegistrationToken) -> (r: bool)
        ensures
            r == is_deliverable(self@, token),
    {
        token.address < self.channels.len() as u64 && self.channels[token.address as usize].open
    }

    /// Delivers `instance` to the channel `token` names. The lookup is
    /// checked: an unknown capability, or one whose receiving end is gone, is
    /// a `ChannelClosed` failure, and the registry is left as it was.
    pub fn send(&mut self, token: RegistrationToken, instance: Instance) -> (r: Result<(), J4RsError>)
        ensures
            final(self)@ == after_delivery(old(self)@, token, instance@),
            match r {
                Ok(_) => is_deliverable(old(self)@, token),
                Err(e) => !is_deliverable(old(self)@, token) && e@ == ErrorModel::ChannelClosed,
            },
    {
        if !self.is_deliverable(token) {
            return Err(J4RsError::ChannelClosed);
        }
        let at = token.address as usize;
        let ghost before = self.channels@;
        let mut channel = self.channels.remove(at);
        channel.queue.push(instance);
        proof {
            assert(channel@.queue =~= before[at as int]@.queue.push(instance@));
        }
        self.channels.insert(at, channel);
        proof {
            assert(self.channels@ =~= before.update(at as int, channel));
            assert(self@ =~= after_delivery(old(self)@, token, instance@));
        }
        Ok(())
    }

    /// Receives the oldest handle of the channel, if there is one.
    pub fn receive(&mut self, token: RegistrationToken) -> (r: Option<Instance>)
        ensures
            final(self)@ == after_receive(old(self)@, token),
            match r {
                Some(instance) => next_in_queue(old(self)@, token) == Some(instance@),
                None => next_in_queue(old(self)@, token).is_none(),
            },
    {
        if token.address >= self.channels.len() as u64 {
            return None;
        }
        let at = token.address as usize;
        if self.channels[at].queue.len() == 0 {
            assert(self@[at as int].queue.len() == 0);
            return None;
        }
        let ghost before = self.channels@;
        let mut channel = self.channels.remove(at);
        let instance = channel.queue.remove(0);
        proof {
            assert(channel@.queue =~= before[at as int]@.queue.subrange(
                1,
                before[at as int]@.queue.len() as int,
            ));
        }
        self.channels.insert(at, channel);
        proof {
            assert(self.channels@ =~= before.update(at as int, channel));
            assert(old(self)@[at as int].queue.len() > 0);
            assert(self@ =~= after_receive(old(self)@, token));
        }
        Some(instance)
    }

    /// The number of handles waiting in the channel.
    pub fn pending(&self, token: RegistrationToken) -> (n: usize)
        ensures
            n == (if token.address < self@.len() {
                self@[token.address as int].queue.len()
            } else {
                0
            }),
    {
        if token.address < self.channels.len() as u64 {
            self.channels[token.address as usize].queue.len()
        } else {
            0
        }
    }

    /// Records that the receiving end of the channel is gone. Envelopes that
    /// wait in the queue stay there.
    pub fn close(&mut self, token: RegistrationToken)
        ensures
            final(self)@ == after_close(old(self)@, token),
    {
        if token.address < self.channels.len() as u64 {
            let at = token.address as usize;
            let ghost before = self.channels@;
            let mut channel = self.channels.remove(at);
            channel.open = false;
            proof {
                assert(channel@.queue =~= before[at as int]@.queue);
            }
            self.channels.insert(at, channel);
            proof {
                assert(self.channels@ =~= before.update(at as int, channel));
            }
            assert(self@ =~= old(self)@.update(
                token.address as int,
                ChannelModel { queue: old(self)@[token.address as int].queue, open: false },
            ));
        }
    }
}

/// The registry after the handles of `batch` have been delivered to
/// `token`, in order.
pub open spec fn after_deliveries(
    registry: Seq<ChannelModel>,
    token: RegistrationToken,
    batch: Seq<HandleModel>,
) -> Seq<ChannelModel>
    decreases batch.len(),
{
    if batch.len() == 0 {
        registry
    } else {
        after_delivery(after_deliveries(registry, token, batch.drop_last()), token, batch.last())
    }
}

/// Delivery keeps order and loses nothing: after a batch has been delivered
/// to an open channel, the channel holds what it held before, followed by
/// the whole batch in the order of delivery, and every other channel is as
/// it was.
pub proof fn lemma_deliveries_arrive_in_order(
    registry: Seq<ChannelModel>,
    token: RegistrationToken,
    batch: Seq<HandleModel>,
)
    requires
        is_deliverable(registry, token),
    ensures
        after_deliveries(registry, token, batch) == registry.update(
            token.address as int,
            ChannelModel { queue: registry[token.address as int].queue + batch, open: true },
        ),
    decreases batch.len(),
{
    let at = token.address as int;
    if batch.len() == 0 {
        assert(registry[at].queue + batch =~= registry[at].queue);
        assert(registry =~= registry.update(at, ChannelModel { queue: registry[at].queue + batch, open: true }));
    } else {
        lemma_deliveries_arrive_in_order(registry, token, batch.drop_last());
        assert((registry[at].queue + batch.drop_last()).push(batch.last()) =~= registry[at].queue
            + batch);
        assert(after_deliveries(registry, token, batch) =~= registry.update(
            at,
            ChannelModel { queue: registry[at].queue + batch, open: true },
        ));
    }
}

/// Receiving drains a channel from the front: the first receive on a channel
/// that holds `queue` yields the first handle of `queue` and leaves the
/// rest.
pub proof fn lemma_receive_takes_the_oldest(registry: Seq<ChannelModel>, token: RegistrationToken)
    requires
        token.address < registry.len(),
        registry[token.address as int].queue.len() > 0,
    ensures
        next_in_queue(registry, token) == Some(registry[token.address as int].queue[0]),
        after_receive(registry, token)[token.address as int].queue
            == registry[token.address as int].queue.skip(1),
        after_receive(registry, token)[token.address as int].queue.len()
            == registry[token.address as int].queue.len() - 1,
{
    let q = registry[token.address as int].queue;
    assert(q.subrange(1, q.len() as int) =~= q.skip(1));
}

} // verus!
