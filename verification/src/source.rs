//! The pull side of one outbound track: frames arrive whole from a
//! subscription and are handed out byte by byte.

use crate::channel::{poll, Polled};
use std::sync::Arc;
use vstd::prelude::*;

verus! {

/// What to do next after a look at the subscription.
#[derive(Debug, Clone, Copy, PartialEq, Eq, Structural)]
pub enum Refill {
    /// A frame with at least one byte is ready to be read.
    Ready,
    /// The stream has ended: the channel is closed, or an empty frame came.
    Eof,
    /// Frames were lost to a slow reader; look again without waiting.
    Retry,
    /// Nothing is there; wait for the next frame and pass on what came.
    Wait,
}

/// The smaller of two lengths.
pub open spec fn smaller(a: int, b: int) -> int {
    if a <= b {
        a
    } else {
        b
    }
}

/// The reading end of one outbound track: the frame received last and how
/// far it has been read.
#[derive(Debug)]
pub struct AudioRx {
    buf: Vec<u8>,
    cur: usize,
}

impl AudioRx {
    #[verifier::type_invariant]
    spec fn within(self) -> bool {
        self.cur <= self.buf@.len()
    }

    /// The bytes of the current frame that have not been read yet.
    pub closed spec fn pending(self) -> Seq<u8> {
        self.buf@.skip(self.cur as int)
    }

    /// A reader that has received nothing yet.
    pub fn new() -> (made: Self)
        ensures
            made.pending() == Seq::<u8>::empty(),
    {
        let made = AudioRx { buf: Vec::new(), cur: 0 };
        assert(made.pending() =~= Seq::<u8>::empty());
        made
    }

    /// How many bytes of the current frame are left to read.
    pub fn remaining(&self) -> (count: usize)
        ensures
            count == self.pending().len(),
    {
        proof {
            use_type_invariant(self);
        }
        self.buf.len() - self.cur
    }

    /// Copies unread bytes of the current frame into `dst` from index `from`
    /// on: as many as there are, and no more than `dst` has room for. The
    /// rest of `dst` is left as it was, and the copied bytes count as read.
    pub fn read_at(&mut self, dst: &mut [u8], from: usize) -> (end: usize)
        requires
            from <= old(dst)@.len(),
        ensures
            end == from + smaller(old(self).pending().len() as int, old(dst)@.len() - from),
            final(dst)@ == old(dst)@.take(from as int) + old(self).pending().take(end - from) + old(dst)@.skip(end as int),
            final(self).pending() == old(self).pending().skip(end - from),
    {
        proof {
            use_type_invariant(&*self);
        }
        let ghost before = dst@;
        let start: usize = self.cur;
        let unread: usize = self.buf.len() - start;
        let room: usize = dst.len() - from;
        let wanted: usize = if unread <= room {
            unread
        } else {
            room
        };
        let mut count: usize = 0;
        while count < wanted
            invariant
                start + wanted <= self.buf@.len() <= usize::MAX,
                from + wanted <= dst@.len() <= usize::MAX,
                count <= wanted,
                dst@.len() == before.len(),
                self.buf == old(self).buf,
                self.cur == start,
                start == old(self).cur,
                forall|i: int| 0 <= i < from ==> dst@[i] == before[i],
                forall|i: int| from <= i < from + count ==> dst@[i] == self.buf@[start + i - from],
                forall|i: int| from + count <= i < dst@.len() ==> dst@[i] == before[i],
            decreases wanted - count,
        {
            dst[from + count] = self.buf[start + count];
            count += 1;
        }
        self.cur = start + count;
        assert(dst@ =~= before.take(from as int) + old(self).pending().take(count as int) + before.skip(
            from + count,
        ));
        assert(self.pending() =~= old(self).pending().skip(count as int));
        from + count
    }

    /// Copies unread bytes of the current frame to the front of `dst`: as
    /// many as there are, and no more than `dst` takes. The rest of `dst` is
    /// left as it was, and the copied bytes count as read.
    pub fn read(&mut self, dst: &mut [u8]) -> (count: usize)
        ensures
            count == smaller(old(self).pending().len() as int, old(dst)@.len() as int),
            final(dst)@ == old(self).pending().take(count as int) + old(dst)@.skip(count as int),
            final(self).pending() == old(self).pending().skip(count as int),
    {
        let ghost before = dst@;
        let count = self.read_at(dst, 0);
        assert(before.take(0) + old(self).pending().take(count as int) =~= old(self).pending().take(
            count as int,
        ));
        count
    }

    /// Takes in what a look at the subscription, or a wait on it, has brought.
    /// A frame with bytes replaces the current one and is ready to be read.
    /// An empty frame ends the stream and leaves nothing to read. A closed
    /// channel ends the stream. Lost frames are passed over: the look or the
    /// wait is to be repeated. An empty channel calls for a wait.
    pub fn accept(&mut self, polled: Polled, waited: bool) -> (next: Refill)
        ensures
            next == Self::verdict(polled, waited),
            final(self).pending() == match polled {
                Polled::Frame(bytes) => bytes@,
                _ => old(self).pending(),
            },
    {
        match polled {
            Polled::Frame(bytes) => {
                let ready = bytes.len() > 0;
                self.cur = 0;
                self.buf = bytes;
                assert(self.pending() =~= self.buf@);
                if ready {
                    Refill::Ready
                } else {
                    Refill::Eof
                }
            },
            Polled::Closed => Refill::Eof,
            Polled::Lagged(_) => if waited {
                Refill::Wait
            } else {
                Refill::Retry
            },
            Polled::Empty => Refill::Wait,
        }
    }

    /// What each outcome of a look (`waited` false) or of a wait (`waited`
    /// true) calls for.
    pub open spec fn verdict(polled: Polled, waited: bool) -> Refill {
        match polled {
            Polled::Frame(bytes) => if bytes@.len() > 0 {
                Refill::Ready
            } else {
                Refill::Eof
            },
            Polled::Closed => Refill::Eof,
            Polled::Lagged(_) => if waited {
                Refill::Wait
            } else {
                Refill::Retry
            },
            Polled::Empty => Refill::Wait,
        }
    }

    /// Looks at the subscription once, without waiting, and takes in what
    /// was there. Whatever the channel held: on `Ready` there are bytes to
    /// read, on `Retry` and `Wait` the reader is as it was, and on `Eof` it
    /// is as it was or has nothing left to read.
    pub fn refill(&mut self, rx: &mut tokio::sync::broadcast::Receiver<Arc<[u8]>>) -> (next: Refill)
        ensures
            next == Refill::Ready ==> final(self).pending().len() > 0,
            next == Refill::Retry || next == Refill::Wait ==> final(self).pending() == old(self).pending(),
            next == Refill::Eof ==> final(self).pending() == old(self).pending() || final(self).pending().len() == 0,
    {
        let polled = poll(rx);
        self.accept(polled, false)
    }

    /// Fills `dst` from index `from` on with what is at hand: first the
    /// unread bytes of the current frame, then frame after frame from the
    /// subscription, without waiting. Stops with `Ready` when `dst` is full,
    /// and otherwise with what the last look at the subscription called for;
    /// the current frame is then read to its end. What lies before `from`
    /// and after the end that is handed back is left as it was.
    pub fn fill(&mut self, rx: &mut tokio::sync::broadcast::Receiver<Arc<[u8]>>, dst: &mut [u8], from: usize) -> (filled:
        (usize, Refill))
        requires
            from <= old(dst)@.len(),
        ensures
            final(dst)@.len() == old(dst)@.len(),
            from + smaller(old(self).pending().len() as int, old(dst)@.len() - from) <= filled.0 <= old(dst)@.len(),
            filled.1 == Refill::Ready <==> filled.0 == old(dst)@.len(),
            filled.1 != Refill::Ready ==> final(self).pending().len() == 0,
            final(dst)@.take(from as int) == old(dst)@.take(from as int),
            final(dst)@.skip(filled.0 as int) == old(dst)@.skip(filled.0 as int),
            final(dst)@.subrange(
                from as int,
                from + smaller(old(self).pending().len() as int, old(dst)@.len() - from),
            ) == old(self).pending().take(
                smaller(old(self).pending().len() as int, old(dst)@.len() - from),
            ),
    {
        let ghost before = dst@;
        let ghost first = smaller(self.pending().len() as int, dst@.len() - from);
        let mut end = self.read_at(dst, from);
        assert(dst@.subrange(from as int, from + first) =~= old(self).pending().take(first));
        assert(dst@.take(from as int) =~= before.take(from as int));
        assert(dst@.skip(end as int) =~= before.skip(end as int));
        while end < dst.len()
            invariant
                before == old(dst)@,
                first == smaller(old(self).pending().len() as int, old(dst)@.len() - from),
                0 <= first,
                from + first <= end <= dst@.len(),
                dst@.len() == before.len(),
                end < dst@.len() ==> self.pending().len() == 0,
                dst@.take(from as int) == before.take(from as int),
                dst@.skip(end as int) == before.skip(end as int),
                dst@.subrange(from as int, from + first) == old(self).pending().take(first),
            decreases dst@.len() - end,
        {
            let next = self.refill(rx);
            if next != Refill::Ready {
                return (end, next);
            }
            let ghost held = dst@;
            let ghost unread = self.pending();
            let more = self.read_at(dst, end);
            assert(end < more <= held.len());
            assert(dst@ == held.take(end as int) + unread.take(more - end) + held.skip(more as int));
            assert(dst@.len() == held.len());
            assert(dst@.take(from as int) =~= held.take(from as int));
            assert(dst@.skip(more as int) =~= held.skip(more as int));
            assert(dst@.subrange(from as int, from + first) =~= held.subrange(from as int, from + first));
            assert forall|i: int| more <= i < held.len() implies held[i] == before[i] by {
                assert(held.skip(end as int)[i - end] == before.skip(end as int)[i - end]);
            }
            assert(dst@.skip(more as int) =~= before.skip(more as int));
            end = more;
        }
        (end, Refill::Ready)
    }
}

} // verus!
