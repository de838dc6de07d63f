//! The thread runtime gateway: which host threads are attached to the
//! managed runtime.

use vstd::prelude::*;
use crate::errors::{ErrorKind, ErrorModel, J4RsError};

verus! {

/// The attachment of one thread.
#[derive(Clone, Copy, Debug, PartialEq, Eq, Structural)]
pub struct Attachment {
    pub thread: u64,
    /// Whether the attachment is torn down when the thread ends.
    pub detach_on_exit: bool,
}

/// The live handle into the managed runtime that an attached thread holds.
#[derive(Clone, Copy, Debug, PartialEq, Eq, Structural)]
pub struct RuntimeAccess {
    pub thread: u64,
}

/// The attachments of a runtime, at most one for a thread.
#[derive(Debug)]
pub struct ThreadGateway {
    available: bool,
    attachments: Vec<Attachment>,
}

/// The mathematical model of a [`ThreadGateway`].
pub struct GatewayModel {
    pub available: bool,
    pub attachments: Seq<Attachment>,
}

impl GatewayModel {
    /// Whether `thread` holds an attachment.
    pub open spec fn is_attached(self, thread: u64) -> bool {
        exists|i: int| 0 <= i < self.attachments.len() && (#[trigger] self.attachments[i]).thread
            == thread
    }

    /// No thread holds two attachments.
    pub open spec fn wf(self) -> bool {
        forall|i: int, j: int|
            0 <= i < j < self.attachments.len() ==> (#[trigger] self.attachments[i]).thread != (
            #[trigger] self.attachments[j]).thread
    }

    /// What an attach answers. A thread that is attached gets its attachment
    /// back without a handshake; a new thread is attached where the
    /// handshake succeeded.
    pub open spec fn attach_outcome(self, thread: u64, handshake_ok: bool) -> Result<
        RuntimeAccess,
        ErrorKind,
    > {
        if !self.available {
            Err(ErrorKind::RuntimeUnavailable)
        } else if self.is_attached(thread) || handshake_ok {
            Ok(RuntimeAccess { thread })
        } else {
            Err(ErrorKind::AttachFailed)
        }
    }

    /// The gateway after an attach.
    pub open spec fn after_attach(
        self,
        thread: u64,
        detach_on_exit: bool,
        handshake_ok: bool,
    ) -> GatewayModel {
        if self.available && !self.is_attached(thread) && handshake_ok {
            GatewayModel {
                available: true,
                attachments: self.attachments.push(Attachment { thread, detach_on_exit }),
            }
        } else {
            self
        }
    }

    /// The gateway after the attachment of `thread`, if it has one, has been
    /// told whether to be torn down when the thread ends.
    pub open spec fn with_detach_on_exit(self, thread: u64, detach_on_exit: bool) -> GatewayModel {
        GatewayModel {
            available: self.available,
            attachments: Seq::new(
                self.attachments.len(),
                |i: int|
                    if self.attachments[i].thread == thread {
                        Attachment { thread, detach_on_exit }
                    } else {
                        self.attachments[i]
                    },
            ),
        }
    }

    /// The gateway after `thread` has ended: its attachment is gone where it
    /// was to be torn down, and stays otherwise.
    pub open spec fn after_exit(self, thread: u64) -> GatewayModel {
        GatewayModel {
            available: self.available,
            attachments: self.attachments.filter(
                |a: Attachment| !(a.thread == thread && a.detach_on_exit),
            ),
        }
    }
}

impl View for ThreadGateway {
    type V = GatewayModel;

    closed spec fn view(&self) -> GatewayModel {
        GatewayModel { available: self.available, attachments: self.attachments@ }
    }
}

impl ThreadGateway {
    /// The gateway of a runtime that has just been initialised.
    pub fn new() -> (g: ThreadGateway)
        ensures
            g@.available,
            g@.attachments == Seq::<Attachment>::empty(),
            g@.wf(),
    {
        ThreadGateway { available: true, attachments: Vec::new() }
    }

    /// The gateway where no runtime has been initialised.
    pub fn unavailable() -> (g: ThreadGateway)
        ensures
            !g@.available,
            g@.attachments == Seq::<Attachment>::empty(),
            g@.wf(),
    {
        ThreadGateway { available: false, attachments: Vec::new() }
    }

    /// Records that the runtime has shut down: no thread can attach any
    /// more, and the attachments that are there stay as they are.
    pub fn shutdown(&mut self)
        ensures
            !final(self)@.available,
            final(self)@.attachments == old(self)@.attachments,
    {
        self.available = false;
    }

    /// Whether a runtime is there to attach to.
    pub fn is_available(&self) -> (r: bool)
        ensures
            r == self@.available,
    {
        self.available
    }

    fn position(&self, thread: u64) -> (r: Option<usize>)
        ensures
            match r {
                Some(i) => i < self@.attachments.len() && self@.attachments[i as int].thread
                    == thread,
                None => !self@.is_attached(thread),
            },
    {
        let mut i: usize = 0;
        while i < self.attachments.len()
            invariant
                i <= self.attachments.len(),
                forall|j: int| 0 <= j < i ==> (#[trigger] self.attachments@[j]).thread != thread,
            decreases self.attachments.len() - i,
        {
            if self.attachments[i].thread == thread {
                return Some(i);
            }
            i += 1;
        }
        None
    }

    /// Whether `thread` holds an attachment.
    pub fn is_attached(&self, thread: u64) -> (r: bool)
        ensures
            r == self@.is_attached(thread),
    {
        self.position(thread).is_some()
    }

    /// Attaches `thread` to the managed runtime, once: a thread that is
    /// attached gets its attachment back and nothing changes. `handshake_ok`
    /// is the outcome of the native attach call, and is looked at for a new
    /// thread only.
    pub fn attach_current_thread(&mut self, thread: u64, detach_on_exit: bool, handshake_ok: bool) -> (r:
        Result<RuntimeAccess, J4RsError>)
        requires
            old(self)@.wf(),
        ensures
            final(self)@.wf(),
            final(self)@ == old(self)@.after_attach(thread, detach_on_exit, handshake_ok),
            match r {
                Ok(access) => old(self)@.attach_outcome(thread, handshake_ok) == Ok::<
                    RuntimeAccess,
                    ErrorKind,
                >(access),
                Err(e) => old(self)@.attach_outcome(thread, handshake_ok) == Err::<
                    RuntimeAccess,
                    ErrorKind,
                >(e@.kind()) && e@ == ErrorModel::of_kind(e@.kind()),
            },
            r.is_ok() ==> final(self)@.is_attached(thread),
    {
        if !self.available {
            return Err(J4RsError::RuntimeUnavailable);
        }
        if self.is_attached(thread) {
            return Ok(RuntimeAccess { thread });
        }
        if !handshake_ok {
            return Err(J4RsError::AttachFailed);
        }
        let ghost before = self.attachments@;
        self.attachments.push(Attachment { thread, detach_on_exit });
        proof {
            let after = self.attachments@;
            assert(after[after.len() - 1].thread == thread);
            assert forall|i: int, j: int| 0 <= i < j < after.len() implies (#[trigger] after[i]).thread
                != (#[trigger] after[j]).thread by {
                assert(after[i] == before[i]);
                if j < before.len() {
                    assert(after[j] == before[j]);
                    assert(before[i].thread != before[j].thread);
                } else {
                    assert(!old(self)@.is_attached(thread));
                    assert(old(self)@.attachments[i].thread != thread);
                }
            }
        }
        Ok(RuntimeAccess { thread })
    }

    /// Sets whether the attachment of `thread` is torn down when the thread
    /// ends. A thread that is not attached is left alone.
    pub fn detach_thread_on_drop(&mut self, thread: u64, detach_on_exit: bool)
        requires
            old(self)@.wf(),
        ensures
            final(self)@.wf(),
            final(self)@ == old(self)@.with_detach_on_exit(thread, detach_on_exit),
    {
        match self.position(thread) {
            Some(i) => {
                let ghost before = self.attachments@;
                self.attachments.set(i, Attachment { thread, detach_on_exit });
                proof {
                    let after = self.attachments@;
                    assert forall|k: int| 0 <= k < before.len() implies #[trigger] after[k] == (
                    if before[k].thread == thread {
                        Attachment { thread, detach_on_exit }
                    } else {
                        before[k]
                    }) by {
                        if k < i {
                            assert(before[k].thread != before[i as int].thread);
                        } else if i < k {
                            assert(before[i as int].thread != before[k].thread);
                        }
                    }
                    assert(after =~= old(self)@.with_detach_on_exit(thread, detach_on_exit).attachments);
                    assert forall|a: int, b: int| 0 <= a < b < after.len() implies (
                    #[trigger] after[a]).thread != (#[trigger] after[b]).thread by {
                        assert(after[a].thread == before[a].thread);
                        assert(after[b].thread == before[b].thread);
                        assert(before[a].thread != before[b].thread);
                    }
                }
            },
            None => {
                proof {
                    let before = self.attachments@;
                    assert forall|k: int| 0 <= k < before.len() implies (#[trigger] before[k]).thread
                        != thread by {
                        assert(!self@.is_attached(thread));
                        assert(self@.attachments[k].thread != thread);
                    }
                    assert(before =~= old(self)@.with_detach_on_exit(thread, detach_on_exit).attachments);
                }
            },
        }
    }

    /// Records that `thread` has ended.
    pub fn thread_exit(&mut self, thread: u64)
        requires
            old(self)@.wf(),
        ensures
            final(self)@.wf(),
            final(self)@ == old(self)@.after_exit(thread),
    {
        match self.position(thread) {
            Some(i) => {
                if self.attachments[i].detach_on_exit {
                    let ghost before = self.attachments@;
                    self.attachments.remove(i);
                    proof {
                        lemma_filter_removes_one(before, i as int, thread);
                        let after = self.attachments@;
                        assert forall|a: int, b: int| 0 <= a < b < after.len() implies (
                        #[trigger] after[a]).thread != (#[trigger] after[b]).thread by {
                            let x = if a < i { a } else { a + 1 };
                            let y = if b < i { b } else { b + 1 };
                            assert(after[a] == before[x]);
                            assert(after[b] == before[y]);
                            assert(before[x].thread != before[y].thread);
                        }
                    }
                } else {
                    proof {
                        let all = self.attachments@;
                        assert forall|k: int| 0 <= k < all.len() implies !((#[trigger] all[k]).thread
                            == thread && all[k].detach_on_exit) by {
                            if k < i {
                                assert(all[k].thread != all[i as int].thread);
                            } else if i < k {
                                assert(all[i as int].thread != all[k].thread);
                            }
                        }
                        lemma_filter_all(all, thread);
                    }
                }
            },
            None => {
                proof {
                    let all = self.attachments@;
                    assert forall|k: int| 0 <= k < all.len() implies !((#[trigger] all[k]).thread
                        == thread && all[k].detach_on_exit) by {
                        assert(!self@.is_attached(thread));
                        assert(self@.attachments[k].thread != thread);
                    }
                    lemma_filter_all(all, thread);
                }
            },
        }
    }
}

/// Filtering out the attachment of an ended thread takes out the one entry
/// that is to be torn down.
proof fn lemma_filter_removes_one(s: Seq<Attachment>, i: int, thread: u64)
    requires
        0 <= i < s.len(),
        s[i].thread == thread,
        s[i].detach_on_exit,
        forall|a: int, b: int| 0 <= a < b < s.len() ==> (#[trigger] s[a]).thread != (#[trigger] s[b]).thread,
    ensures
        s.filter(|a: Attachment| !(a.thread == thread && a.detach_on_exit)) == s.remove(i),
    decreases s.len(),
{
    let keep = |a: Attachment| !(a.thread == thread && a.detach_on_exit);
    reveal(Seq::filter);
    if i == s.len() - 1 {
        let front = s.drop_last();
        assert forall|k: int| 0 <= k < front.len() implies keep(#[trigger] front[k]) by {
            assert(s[k].thread != s[i].thread);
        }
        lemma_filter_all(front, thread);
        assert(s.remove(i) =~= front);
    } else {
        let front = s.drop_last();
        assert(front[i] == s[i]);
        assert forall|a: int, b: int| 0 <= a < b < front.len() implies (#[trigger] front[a]).thread != (
        #[trigger] front[b]).thread by {
            assert(s[a].thread != s[b].thread);
        }
        lemma_filter_removes_one(front, i, thread);
        assert(s[i].thread != s[s.len() - 1].thread);
        assert(keep(s.last()));
        assert(s.remove(i) =~= front.remove(i).push(s.last()));
    }
}

/// Filtering changes nothing where every entry is kept.
proof fn lemma_filter_all(s: Seq<Attachment>, thread: u64)
    requires
        forall|k: int|
            0 <= k < s.len() ==> !((#[trigger] s[k]).thread == thread && s[k].detach_on_exit),
    ensures
        s.filter(|a: Attachment| !(a.thread == thread && a.detach_on_exit)) == s,
    decreases s.len(),
{
    reveal(Seq::filter);
    if s.len() > 0 {
        let front = s.drop_last();
        assert forall|k: int| 0 <= k < front.len() implies !((#[trigger] front[k]).thread == thread
            && front[k].detach_on_exit) by {
            assert(front[k] == s[k]);
        }
        lemma_filter_all(front, thread);
        assert(front.push(s.last()) =~= s);
    } else {
        assert(s.filter(|a: Attachment| !(a.thread == thread && a.detach_on_exit)) =~= s);
    }
}

/// Attaching is idempotent: a second attach of the same thread succeeds and
/// leaves the gateway as the first one left it, whatever the second
/// handshake would have answered.
pub proof fn lemma_attach_is_idempotent(
    g: GatewayModel,
    thread: u64,
    detach_on_exit: bool,
    again_detach_on_exit: bool,
    again_handshake_ok: bool,
)
    requires
        g.available,
    ensures
        ({
            let once = g.after_attach(thread, detach_on_exit, true);
            &&& once.is_attached(thread)
            &&& once.attach_outcome(thread, again_handshake_ok) == Ok::<RuntimeAccess, ErrorKind>(
                RuntimeAccess { thread },
            )
            &&& once.after_attach(thread, again_detach_on_exit, again_handshake_ok) == once
        }),
{
    let once = g.after_attach(thread, detach_on_exit, true);
    if !g.is_attached(thread) {
        assert(once.attachments[once.attachments.len() - 1].thread == thread);
    }
}

} // verus!
