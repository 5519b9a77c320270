//! Bounded FIFO of encoded frames waiting for the single writer, with a
//! separate lane for keepalive replies that goes out first.
use vstd::prelude::*;
use crate::frame::string_views;

verus! {

/// The queue after `fs` is pushed onto `q`, one frame at a time, each at the back.
pub open spec fn pushed_all(q: Seq<Seq<char>>, fs: Seq<Seq<char>>) -> Seq<Seq<char>>
    decreases fs.len(),
{
    if fs.len() == 0 {
        q
    } else {
        pushed_all(q, fs.drop_last()).push(fs.last())
    }
}

/// The frames the writer takes first from `q`, `n` of them, one at a time
/// from the front.
pub open spec fn taken(q: Seq<Seq<char>>, n: nat) -> Seq<Seq<char>>
    decreases n,
{
    if n == 0 || q.len() == 0 {
        Seq::empty()
    } else {
        seq![q[0]] + taken(q.drop_first(), (n - 1) as nat)
    }
}

proof fn lemma_pushed_all_appends(q: Seq<Seq<char>>, fs: Seq<Seq<char>>)
    ensures
        pushed_all(q, fs) == q + fs,
    decreases fs.len(),
{
    if fs.len() > 0 {
        lemma_pushed_all_appends(q, fs.drop_last());
        assert((q + fs.drop_last()).push(fs.last()) =~= q + fs);
    }
}

proof fn lemma_taken_prefix(q: Seq<Seq<char>>, n: nat)
    requires
        n <= q.len(),
    ensures
        taken(q, n) == q.subrange(0, n as int),
    decreases n,
{
    if n > 0 {
        lemma_taken_prefix(q.drop_first(), (n - 1) as nat);
        assert(seq![q[0]] + q.drop_first().subrange(0, n - 1) =~= q.subrange(0, n as int));
    }
}

/// Frames pushed one after another, behind whatever was already waiting,
/// are all taken by the writer, in the order they were pushed, right after
/// the frames that were waiting before them.
pub proof fn lemma_fifo_order(q: Seq<Seq<char>>, fs: Seq<Seq<char>>)
    ensures
        taken(pushed_all(q, fs), q.len() + fs.len()) == q + fs,
        pushed_all(q, fs).subrange(q.len() as int, (q.len() + fs.len()) as int) == fs,
{
    lemma_pushed_all_appends(q, fs);
    lemma_taken_prefix(q + fs, q.len() + fs.len());
    assert((q + fs).subrange(0, (q.len() + fs.len()) as int) =~= q + fs);
    assert((q + fs).subrange(q.len() as int, (q.len() + fs.len()) as int) =~= fs);
}

pub struct OutboundQueue {
    urgent: Vec<String>,
    frames: Vec<String>,
    capacity: usize,
}

impl View for OutboundQueue {
    /// The frames in the order the writer will take them.
    type V = Seq<Seq<char>>;

    closed spec fn view(&self) -> Seq<Seq<char>> {
        string_views(self.urgent@) + string_views(self.frames@)
    }
}

impl OutboundQueue {
    pub closed spec fn wf(&self) -> bool {
        self.capacity > 0 && self.frames@.len() <= self.capacity
    }

    pub closed spec fn spec_capacity(&self) -> nat {
        self.capacity as nat
    }

    /// Number of application frames held; keepalive replies are not counted
    /// against the capacity.
    pub closed spec fn spec_pending(&self) -> nat {
        self.frames@.len()
    }

    pub closed spec fn spec_urgent(&self) -> nat {
        self.urgent@.len()
    }

    /// The waiting frames are the keepalive replies followed by the
    /// application frames.
    pub proof fn lemma_counts(&self)
        ensures
            self@.len() == self.spec_urgent() + self.spec_pending(),
    {
    }

    pub fn new(capacity: usize) -> (r: Self)
        requires
            capacity > 0,
        ensures
            r.wf(),
            r@ == Seq::<Seq<char>>::empty(),
            r.spec_capacity() == capacity,
            r.spec_pending() == 0,
            r.spec_urgent() == 0,
    {
        let r = OutboundQueue { urgent: Vec::new(), frames: Vec::new(), capacity };
        assert(r@ =~= Seq::<Seq<char>>::empty());
        r
    }

    pub fn capacity(&self) -> (r: usize)
        ensures
            r == self.spec_capacity(),
    {
        self.capacity
    }

    pub fn is_empty(&self) -> (r: bool)
        ensures
            r == (self@.len() == 0),
    {
        self.urgent.len() == 0 && self.frames.len() == 0
    }

    /// Number of application frames waiting.
    pub fn pending(&self) -> (r: usize)
        ensures
            r == self.spec_pending(),
    {
        self.frames.len()
    }

    pub fn is_full(&self) -> (r: bool)
        requires
            self.wf(),
        ensures
            r == (self.spec_pending() == self.spec_capacity()),
    {
        self.frames.len() == self.capacity
    }

    /// Adds an application frame at the back. When the queue is full nothing
    /// is dropped: the frame is handed back unchanged and the queue stays as
    /// it was, for the caller to wait and offer it again.
    pub fn push(&mut self, frame: String) -> (r: Result<(), String>)
        requires
            old(self).wf(),
        ensures
            final(self).wf(),
            final(self).spec_capacity() == old(self).spec_capacity(),
            final(self).spec_urgent() == old(self).spec_urgent(),
            old(self).spec_pending() < old(self).spec_capacity() ==> {
                &&& r is Ok
                &&& final(self)@ == old(self)@.push(frame@)
                &&& final(self).spec_pending() == old(self).spec_pending() + 1
            },
            old(self).spec_pending() == old(self).spec_capacity() ==> {
                &&& r == Err::<(), String>(frame)
                &&& *final(self) == *old(self)
            },
    {
        if self.frames.len() < self.capacity {
            let ghost f = frame@;
            self.frames.push(frame);
            proof {
                assert(string_views(self.frames@) =~= string_views(old(self).frames@).push(f));
                assert(self@ =~= old(self)@.push(f));
            }
            Ok(())
        } else {
            Err(frame)
        }
    }

    /// Adds a keepalive reply ahead of every application frame, behind the
    /// replies already waiting. It never waits for room.
    pub fn push_urgent(&mut self, frame: String) -> (r: ())
        requires
            old(self).wf(),
        ensures
            final(self).wf(),
            final(self).spec_capacity() == old(self).spec_capacity(),
            final(self).spec_pending() == old(self).spec_pending(),
            final(self).spec_urgent() == old(self).spec_urgent() + 1,
            final(self)@ == old(self)@.subrange(0, old(self).spec_urgent() as int).push(frame@)
                + old(self)@.subrange(old(self).spec_urgent() as int, old(self)@.len() as int),
    {
        let ghost f = frame@;
        self.urgent.push(frame);
        proof {
            let u = string_views(old(self).urgent@);
            let a = string_views(old(self).frames@);
            assert(string_views(self.urgent@) =~= u.push(f));
            assert(old(self)@.subrange(0, u.len() as int) =~= u);
            assert(old(self)@.subrange(u.len() as int, old(self)@.len() as int) =~= a);
        }
    }

    /// Takes the next frame for the writer: the oldest keepalive reply if
    /// any, else the oldest application frame.
    pub fn pop(&mut self) -> (r: Option<String>)
        requires
            old(self).wf(),
        ensures
            final(self).wf(),
            final(self).spec_capacity() == old(self).spec_capacity(),
            old(self)@.len() == 0 ==> r is None && final(self)@ == old(self)@,
            old(self)@.len() > 0 ==> r is Some && r->Some_0@ == old(self)@[0]
                && final(self)@ == old(self)@.drop_first(),
            old(self).spec_urgent() > 0 ==> final(self).spec_urgent() == old(self).spec_urgent() - 1
                && final(self).spec_pending() == old(self).spec_pending(),
            old(self).spec_urgent() == 0 && old(self).spec_pending() > 0 ==> final(self).spec_urgent() == 0
                && final(self).spec_pending() == old(self).spec_pending() - 1,
            old(self)@.len() == 0 ==> final(self).spec_urgent() == 0 && final(self).spec_pending() == 0,
    {
        if self.urgent.len() > 0 {
            let f = self.urgent.remove(0);
            proof {
                assert(string_views(self.urgent@) =~= string_views(old(self).urgent@).drop_first());
                assert(self@ =~= old(self)@.drop_first());
            }
            Some(f)
        } else if self.frames.len() > 0 {
            let f = self.frames.remove(0);
            proof {
                assert(string_views(old(self).urgent@) =~= Seq::<Seq<char>>::empty());
                assert(string_views(self.frames@) =~= string_views(old(self).frames@).drop_first());
                assert(self@ =~= old(self)@.drop_first());
            }
            Some(f)
        } else {
            proof {
                assert(old(self)@ =~= Seq::<Seq<char>>::empty());
            }
            None
        }
    }

    /// Drops every waiting frame.
    pub fn clear(&mut self)
        requires
            old(self).wf(),
        ensures
            final(self).wf(),
            final(self).spec_capacity() == old(self).spec_capacity(),
            final(self)@ == Seq::<Seq<char>>::empty(),
            final(self).spec_pending() == 0,
            final(self).spec_urgent() == 0,
    {
        self.urgent.clear();
        self.frames.clear();
        assert(self@ =~= Seq::<Seq<char>>::empty());
    }
}

} // verus!
