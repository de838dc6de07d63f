//! Object handles and the table of references the managed runtime has handed
//! out to the host.
//!
//! The managed runtime owns the real reference bookkeeping. A handle is a
//! capability for one reference: it cannot be copied, and its reference is
//! released at most once.

use vstd::prelude::*;
use crate::errors::ErrorKind;

verus! {

/// One reference in the table: the object it points to, and whether it is
/// still held by the host.
#[derive(Clone, Copy, Debug, PartialEq, Eq, Structural)]
pub struct Reference {
    pub object: usize,
    pub live: bool,
}

/// The references handed out so far, by token.
#[derive(Debug)]
pub struct HandleTable {
    entries: Vec<Reference>,
}

/// Whether `token` names a reference that has not been released.
pub open spec fn is_live(table: Seq<Reference>, token: int) -> bool {
    0 <= token < table.len() && table[token].live
}

/// The table after the reference `token` has been released.
pub open spec fn released(table: Seq<Reference>, token: int) -> Seq<Reference>
    recommends
        is_live(table, token),
{
    table.update(token, Reference { object: table[token].object, live: false })
}

/// What releasing `token` answers: it succeeds on a live reference and is a
/// `HandleReleased` failure on any other token.
pub open spec fn release_outcome(table: Seq<Reference>, token: int) -> Result<(), ErrorKind> {
    if is_live(table, token) {
        Ok(())
    } else {
        Err(ErrorKind::HandleReleased)
    }
}

/// The table after an attempt to release `token`: a failed attempt changes
/// nothing.
pub open spec fn after_release(table: Seq<Reference>, token: int) -> Seq<Reference> {
    if is_live(table, token) {
        released(table, token)
    } else {
        table
    }
}

impl View for HandleTable {
    type V = Seq<Reference>;

    closed spec fn view(&self) -> Seq<Reference> {
        self.entries@
    }
}

impl HandleTable {
    /// A table without references.
    pub fn new() -> (t: HandleTable)
        ensures
            t@ == Seq::<Reference>::empty(),
    {
        HandleTable { entries: Vec::new() }
    }

    /// The number of references handed out so far, released ones included.
    pub fn len(&self) -> (n: usize)
        ensures
            n == self@.len(),
    {
        self.entries.len()
    }

    /// Mints a new, independent reference to `object` and returns its token.
    pub fn mint(&mut self, object: usize) -> (token: usize)
        ensures
            token == old(self)@.len(),
            final(self)@ == old(self)@.push(Reference { object, live: true }),
    {
        let token = self.entries.len();
        self.entries.push(Reference { object, live: true });
        token
    }

    /// The object behind a live reference.
    pub fn resolve(&self, token: usize) -> (r: Result<usize, ErrorKind>)
        ensures
            r == (if is_live(self@, token as int) {
                Ok::<usize, ErrorKind>(self@[token as int].object)
            } else {
                Err::<usize, ErrorKind>(ErrorKind::HandleReleased)
            }),
    {
        if token < self.entries.len() && self.entries[token].live {
            Ok(self.entries[token].object)
        } else {
            Err(ErrorKind::HandleReleased)
        }
    }

    /// Releases the reference `token`. A reference that is not live, because
    /// it was released before or never minted, is refused and nothing changes.
    pub fn release(&mut self, token: usize) -> (r: Result<(), ErrorKind>)
        ensures
            r == release_outcome(old(self)@, token as int),
            final(self)@ == after_release(old(self)@, token as int),
    {
        if token < self.entries.len() && self.entries[token].live {
            let object = self.entries[token].object;
            self.entries.set(token, Reference { object, live: false });
            Ok(())
        } else {
            Err(ErrorKind::HandleReleased)
        }
    }
}

/// Releasing a live reference once is valid, and it leaves every other
/// reference as it was. Releasing it a second time fails with
/// `HandleReleased` and changes nothing.
pub proof fn lemma_release_exactly_once(table: Seq<Reference>, token: int)
    requires
        is_live(table, token),
    ensures
        release_outcome(table, token) == Ok::<(), ErrorKind>(()),
        !is_live(after_release(table, token), token),
        forall|other: int|
            other != token ==> is_live(after_release(table, token), other) == is_live(table, other),
        release_outcome(after_release(table, token), token) == Err::<(), ErrorKind>(
            ErrorKind::HandleReleased,
        ),
        after_release(after_release(table, token), token) == after_release(table, token),
{
}

/// An owned handle to one managed object.
///
/// A handle is created by the runtime only, cannot be copied, and is given
/// back by value when it is released, so that a released handle cannot be
/// named again. A second independent handle to the same object is minted by
/// the runtime on request. A handle that is dropped without having been
/// given back keeps its reference live in the runtime's table: the object
/// stays reachable, and nothing is released twice.
#[derive(Debug)]
pub struct Instance {
    token: usize,
    class_name: String,
}

/// The mathematical model of an [`Instance`]: the token of the reference it
/// holds, and the class it declares.
pub struct HandleModel {
    pub token: int,
    pub class_name: Seq<char>,
}

impl View for Instance {
    type V = HandleModel;

    closed spec fn view(&self) -> HandleModel {
        HandleModel { token: self.token as int, class_name: self.class_name@ }
    }
}

impl Instance {
    pub(crate) fn new(token: usize, class_name: String) -> (h: Instance)
        ensures
            h@ == (HandleModel { token: token as int, class_name: class_name@ }),
    {
        Instance { token, class_name }
    }

    pub(crate) fn reference(&self) -> (t: usize)
        ensures
            t == self@.token,
    {
        self.token
    }

    /// The class name of the managed object, as declared when the handle was
    /// made.
    pub fn class_name(&self) -> (name: &str)
        ensures
            name@ == self@.class_name,
    {
        self.class_name.as_str()
    }
}

} // verus!
