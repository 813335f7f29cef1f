use vstd::prelude::*;
use std::collections::VecDeque;

verus! {

broadcast use vstd::std_specs::vecdeque::axiom_spec_len;

/// The state of a channel between fibers: the queued messages, oldest
/// first, and an optional capacity. Waiting for room or for a message is
/// left to the caller, which retries after being woken.
pub struct Channel<T> {
    queue: VecDeque<T>,
    cap: Option<usize>,
}

impl<T> Channel<T> {
    /// The queued messages, oldest first.
    pub closed spec fn messages(&self) -> Seq<T> {
        self.queue@
    }

    /// The capacity, if the channel is bounded.
    pub closed spec fn capacity(&self) -> Option<usize> {
        self.cap
    }

    #[verifier::type_invariant]
    spec fn within_capacity(&self) -> bool {
        match self.cap {
            Some(c) => self.queue@.len() <= c,
            None => true,
        }
    }

    /// An empty channel without capacity limit.
    pub fn unbounded() -> (r: Self)
        ensures
            r.messages() == Seq::<T>::empty(),
            r.capacity() is None,
    {
        Channel { queue: VecDeque::new(), cap: None }
    }

    /// An empty channel that holds at most `cap` messages.
    pub fn bounded(cap: usize) -> (r: Self)
        ensures
            r.messages() == Seq::<T>::empty(),
            r.capacity() == Some(cap),
    {
        Channel { queue: VecDeque::with_capacity(cap), cap: Some(cap) }
    }

    /// Whether a message can be queued now.
    pub fn has_room(&self) -> (r: bool)
        ensures
            r == (match self.capacity() {
                Some(c) => self.messages().len() < c,
                None => true,
            }),
    {
        match self.cap {
            Some(c) => self.queue.len() < c,
            None => true,
        }
    }

    /// Queues `msg` at the back if there is room; otherwise hands it back,
    /// and the sender waits for a receiver to make room.
    pub fn try_send(&mut self, msg: T) -> (r: Result<(), T>)
        ensures
            final(self).capacity() == old(self).capacity(),
            match old(self).capacity() {
                Some(c) => old(self).messages().len() >= c,
                None => false,
            } ==> r == Err::<(), T>(msg) && final(self).messages() == old(self).messages(),
            !match old(self).capacity() {
                Some(c) => old(self).messages().len() >= c,
                None => false,
            } ==> r is Ok && final(self).messages() == old(self).messages().push(msg),
            final(self).capacity() matches Some(c) ==> final(self).messages().len() <= c,
    {
        proof {
            use_type_invariant(&*self);
        }
        if !self.has_room() {
            return Err(msg);
        }
        let mut q: VecDeque<T> = VecDeque::new();
        std::mem::swap(&mut q, &mut self.queue);
        q.push_back(msg);
        self.queue = q;
        Ok(())
    }

    /// Takes the oldest message, if there is one; an empty channel is left
    /// unchanged and the receiver waits for a sender.
    pub fn try_recv(&mut self) -> (r: Option<T>)
        ensures
            final(self).capacity() == old(self).capacity(),
            old(self).messages().len() == 0 ==> r is None && final(self).messages() == old(self).messages(),
            old(self).messages().len() > 0 ==> r == Some(old(self).messages()[0])
                && final(self).messages() == old(self).messages().drop_first(),
            final(self).capacity() matches Some(c) ==> final(self).messages().len() <= c,
    {
        proof {
            use_type_invariant(&*self);
        }
        let mut q: VecDeque<T> = VecDeque::new();
        std::mem::swap(&mut q, &mut self.queue);
        let r = q.pop_front();
        self.queue = q;
        proof {
            if old(self).messages().len() > 0 {
                assert(self.queue@ =~= old(self).messages().drop_first());
            }
        }
        r
    }

    /// The number of queued messages.
    pub fn len(&self) -> (r: usize)
        ensures
            r == self.messages().len(),
            self.capacity() matches Some(c) ==> r <= c,
    {
        proof {
            use_type_invariant(self);
        }
        self.queue.len()
    }
}

/// Messages leave in the order they arrived: a message sent behind a
/// non-empty queue does not overtake the oldest one, and stays last.
pub proof fn law_fifo<T>(queue: Seq<T>, msg: T)
    requires
        queue.len() > 0,
    ensures
        queue.push(msg)[0] == queue[0],
        queue.push(msg).drop_first() == queue.drop_first().push(msg),
{
    assert(queue.push(msg).drop_first() =~= queue.drop_first().push(msg));
}

} // verus!
