//! Context collection for control messages.
//!
//! # The problem
//! One supported platform has two credential control-message layouts that
//! share a single control-message identifier. The only kernel-side way to tell
//! which layout a just-received record uses is to query a socket option — and
//! that query is inherently racy: a configuration change on one thread can
//! make another thread's read-out stale by the time the receive call runs, so
//! no sequence of separate kernel queries can classify a record reliably.
//!
//! # The solution
//! The [`Collector`] trait is a small hook interface invoked immediately
//! before and immediately after each ancillary-enabled I/O call. A collector
//! owns whatever connection-local state the caller needs — most importantly,
//! which credential wire shape this connection itself configured the kernel to
//! emit — so the fact is pinned to this connection's own prior action and is
//! never re-derived from shared kernel state. The other items of this module
//! are structural combinators over collectors.

use vstd::prelude::*;

verus! {

/// A context collector to hook into an ancillary-enabled socket read/write
/// operation.
///
/// Both hooks receive the raw descriptor index of the socket as a plain
/// number; the post-operation hook additionally receives the raw flags word
/// the kernel attached to the completed operation. A collector communicates
/// only by mutating its own state, which the caller inspects afterward.
pub trait Collector {
    /// Called right before the receive or send system call, with the
    /// descriptor index of the socket.
    fn pre_op_collect(&mut self, socket: i32);

    /// Same as `pre_op_collect`, but called right after the system call, with
    /// the raw flags word the kernel reported for the completed operation.
    fn post_op_collect(&mut self, socket: i32, msghdr_flags: i32);
}

/// A [`Collector`] that does nothing.
#[derive(Clone, Copy, Debug, PartialEq, Eq, Structural)]
pub struct DummyCollector;

impl Collector for DummyCollector {
    fn pre_op_collect(&mut self, _socket: i32) {
    }

    fn post_op_collect(&mut self, _socket: i32, _msghdr_flags: i32) {
    }
}

impl<T: Collector> Collector for &mut T {
    fn pre_op_collect(&mut self, socket: i32) {
        (**self).pre_op_collect(socket);
    }

    fn post_op_collect(&mut self, socket: i32, msghdr_flags: i32) {
        (**self).post_op_collect(socket, msghdr_flags);
    }
}

impl<T: Collector> Collector for Box<T> {
    fn pre_op_collect(&mut self, socket: i32) {
        (**self).pre_op_collect(socket);
    }

    fn post_op_collect(&mut self, socket: i32, msghdr_flags: i32) {
        (**self).post_op_collect(socket, msghdr_flags);
    }
}

/// A [`Collector`] that diverts to given closures.
///
/// Either hook may be absent; an absent hook does nothing. The closures
/// observe the call context; state they capture is captured immutably.
pub struct FnCollector<F1: Fn(i32), F2: Fn(i32, i32)> {
    before: Option<F1>,
    after: Option<F2>,
}

impl<F1: Fn(i32), F2: Fn(i32, i32)> FnCollector<F1, F2> {
    /// The hook invoked before the operation, if one is stored.
    pub closed spec fn before_hook(self) -> Option<F1> {
        self.before
    }

    /// The hook invoked after the operation, if one is stored.
    pub closed spec fn after_hook(self) -> Option<F2> {
        self.after
    }

    /// A stored hook must be callable on every socket index and flags word,
    /// since the collector cannot know at which call it will be invoked.
    #[verifier::type_invariant]
    spec fn hooks_callable(self) -> bool {
        &&& (self.before is Some ==> forall|s: i32| call_requires(self.before->Some_0, (s,)))
        &&& (self.after is Some ==> forall|s: i32, fl: i32|
            call_requires(self.after->Some_0, (s, fl)))
    }

    /// Creates a collector from the given two closures.
    pub fn before_and_after(before: F1, after: F2) -> (r: Self)
        requires
            forall|s: i32| call_requires(before, (s,)),
            forall|s: i32, fl: i32| call_requires(after, (s, fl)),
        ensures
            r.before_hook() == Some(before),
            r.after_hook() == Some(after),
    {
        FnCollector { before: Some(before), after: Some(after) }
    }

    /// Creates a collector that only hooks before the call.
    pub fn before(before: F1) -> (r: Self)
        requires
            forall|s: i32| call_requires(before, (s,)),
        ensures
            r.before_hook() == Some(before),
            r.after_hook() is None,
    {
        FnCollector { before: Some(before), after: None }
    }

    /// Creates a collector that only hooks after the call.
    pub fn after(after: F2) -> (r: Self)
        requires
            forall|s: i32, fl: i32| call_requires(after, (s, fl)),
        ensures
            r.before_hook() is None,
            r.after_hook() == Some(after),
    {
        FnCollector { before: None, after: Some(after) }
    }
}

impl<F1: Fn(i32), F2: Fn(i32, i32)> Collector for FnCollector<F1, F2> {
    /// Invokes the stored before-hook, if any, with the socket forwarded;
    /// the hooks themselves are left as they are.
    fn pre_op_collect(&mut self, socket: i32)
        ensures
            *final(self) == *old(self),
            old(self).before_hook() matches Some(f) ==> call_ensures(f, (socket,), ()),
    {
        proof {
            use_type_invariant(&*self);
        }
        if let Some(f) = &self.before {
            f(socket);
        }
    }

    /// Invokes the stored after-hook, if any, with the socket and flags word
    /// forwarded; the hooks themselves are left as they are.
    fn post_op_collect(&mut self, socket: i32, msghdr_flags: i32)
        ensures
            *final(self) == *old(self),
            old(self).after_hook() matches Some(f) ==> call_ensures(
                f,
                (socket, msghdr_flags),
                (),
            ),
    {
        proof {
            use_type_invariant(&*self);
        }
        if let Some(f) = &self.after {
            f(socket, msghdr_flags);
        }
    }
}

/// A [`Collector`] that calls every collector in a given collection, in
/// order, for both hook phases.
pub struct IterCollector<C>(Vec<C>);

impl<C: Collector> IterCollector<C> {
    /// The collectors the fan-out drives, in their driving order.
    pub closed spec fn spec_collectors(&self) -> Seq<C> {
        self.0@
    }

    /// Creates a collector that fans out to a collection of collectors.
    pub fn new(collection: Vec<C>) -> (r: Self)
        ensures
            r.spec_collectors() == collection@,
    {
        IterCollector(collection)
    }
}

impl<C: Collector> Collector for IterCollector<C> {
    /// Invokes the pre-operation hook of every collector, first to last.
    fn pre_op_collect(&mut self, socket: i32)
        ensures
            final(self).spec_collectors().len() == old(self).spec_collectors().len(),
    {
        let mut i: usize = 0;
        while i < self.0.len()
            invariant
                i <= self.0.len(),
                self.0.len() == old(self).0.len(),
            decreases self.0.len() - i,
        {
            let mut c = self.0.remove(i);
            c.pre_op_collect(socket);
            self.0.insert(i, c);
            i += 1;
        }
    }

    /// Invokes the post-operation hook of every collector, first to last —
    /// the same order as the pre-operation pass.
    fn post_op_collect(&mut self, socket: i32, msghdr_flags: i32)
        ensures
            final(self).spec_collectors().len() == old(self).spec_collectors().len(),
    {
        let mut i: usize = 0;
        while i < self.0.len()
            invariant
                i <= self.0.len(),
                self.0.len() == old(self).0.len(),
            decreases self.0.len() - i,
        {
            let mut c = self.0.remove(i);
            c.post_op_collect(socket, msghdr_flags);
            self.0.insert(i, c);
            i += 1;
        }
    }
}

} // verus!
