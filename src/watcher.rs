//! The single-slot change mailbox between a file-system observer and the
//! refresh loop. Any number of posts before a take leave one pending signal.
use vstd::prelude::*;

verus! {

/// A logical "something in the directory changed" signal.
#[derive(Debug, Clone, Copy, PartialEq, Eq, Structural)]
pub enum WatchEvent {
    Changed,
}

/// What a file-system notification reports happened to a file.
#[derive(Debug, Clone, Copy, PartialEq, Eq, Structural)]
pub enum ChangeKind {
    Create,
    Modify,
    /// A change of metadata only (permissions, times, attributes).
    Attribute,
    Remove,
    Access,
    Other,
}

/// Only creations and modifications make content available or new.
pub open spec fn signals_change_spec(k: ChangeKind) -> bool {
    k == ChangeKind::Create || k == ChangeKind::Modify
}

/// Whether a notification of kind `k` is passed on as a change signal.
pub fn signals_change(k: ChangeKind) -> (r: bool)
    ensures
        r == signals_change_spec(k),
{
    match k {
        ChangeKind::Create => true,
        ChangeKind::Modify => true,
        _ => false,
    }
}

/// Holds at most one pending change signal.
#[derive(Debug)]
pub struct ChangeSlot {
    pub pending: bool,
}

/// What a take observes, and the slot after it.
pub open spec fn take_spec(pending: bool) -> (Option<WatchEvent>, bool) {
    (if pending { Some(WatchEvent::Changed) } else { None }, false)
}

/// The slot after `n` posts from a slot holding `pending`: each post leaves a
/// signal pending, whatever was there.
pub open spec fn posts(pending: bool, n: nat) -> bool {
    pending || n > 0
}

impl ChangeSlot {
    /// An empty slot.
    pub fn new() -> (r: ChangeSlot)
        ensures
            !r.pending,
    {
        ChangeSlot { pending: false }
    }

    /// Records a change; never blocks and never queues a second signal.
    pub fn post(&mut self)
        ensures
            final(self).pending,
    {
        self.pending = true;
    }

    /// Records a notification of kind `k` if it signals a change.
    pub fn notice(&mut self, k: ChangeKind)
        ensures
            final(self).pending == (signals_change_spec(k) || old(self).pending),
    {
        if signals_change(k) {
            self.post();
        }
    }

    /// Non-blocking drain: the pending signal, if any, leaving the slot empty.
    pub fn take(&mut self) -> (r: Option<WatchEvent>)
        ensures
            (r, final(self).pending) == take_spec(old(self).pending),
    {
        let was = self.pending;
        self.pending = false;
        if was {
            Some(WatchEvent::Changed)
        } else {
            None
        }
    }
}

/// Any number (one or more) of posts followed by one take observe exactly one
/// signal: the take returns it and a second take returns nothing.
pub proof fn lemma_posts_coalesce(pending: bool, n: nat)
    requires
        n >= 1,
    ensures
        take_spec(posts(pending, n)).0 == Some(WatchEvent::Changed),
        take_spec(take_spec(posts(pending, n)).1).0 is None,
{
}

} // verus!
